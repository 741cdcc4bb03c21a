//! The serialized decision layer of the daemon. Every asynchronous source
//! is reduced at the edge of the system to a plain event value; each
//! handler here applies the event to the core state and returns the
//! effects to perform: frontend writes, broadcasts, plugin commands,
//! process watches, or shutdown.

use crate::frontend::{CoreActions, CoreEvent, FrontendActions, FrontendEvent};
use crate::index::{
    frontend_matches, item_from_module, item_provider_added, status_contains, Library,
    LibraryItem, UpdStateAction,
};
use crate::library::preferences::PrefMap;
use crate::library::LibraryItemStatus;
use crate::module::{CoreCommands, LibraryItemStatusSignals, ModuleCommands};
use crate::modules::ModuleManager;
use crate::process::PidMap;
use crate::registry::SockStreamMap;
use vstd::prelude::*;
use vstd::string::StringExecFns;

verus! {

/// A completed internal future, reduced to plain values.
#[derive(Debug)]
pub enum InternalCoreFutures {
    /// A connection finished its handshake under this name.
    NewFrontendRegistered(String),
    /// A launched child exited: (pid, exit status).
    ProcessDied(u32, i32),
    /// The auxiliary database process exited.
    DatabaseProcessDied,
    Debug,
    Error(String),
}

/// What the edge of the system must do after a handler returns.
#[derive(Debug)]
pub enum CoreEffect {
    /// Write the event to the named frontend.
    WriteFrontend(String, CoreEvent),
    /// Write the event to every connected frontend.
    Broadcast(CoreEvent),
    /// Send the command over the named plugin's channel.
    SendModule(String, CoreCommands),
    /// Start awaiting the termination of this child process.
    WatchProcess(u32),
    /// Leave the event loop and begin orderly teardown.
    Shutdown,
}

/// The pid entry `e = (plugin, uuid)` still has its `Running(Some(pid))`
/// status in the library.
pub open spec fn entry_live(library: Library, pid: u32, e: (String, String)) -> bool {
    &&& library.inner@.contains_key(e.1@)
    &&& library.inner@[e.1@].providers@.contains_key(e.0@)
    &&& library.inner@[e.1@].providers@[e.0@].status@.contains(
        LibraryItemStatus::Running(Some(pid)),
    )
}

/// Every recorded child belongs to a provider entry that still shows it
/// running.
pub open spec fn running_consistent(running: PidMap, library: Library) -> bool {
    forall|pid: u32|
        (#[trigger] running.lookup(pid)) matches Some(e) ==> entry_live(library, pid, e)
}

/// The state the event loop owns exclusively.
#[derive(Debug)]
pub struct Core {
    pub library: Library,
    pub running: PidMap,
    pub open_preferences: PrefMap,
}

impl Core {
    pub open spec fn wf(&self) -> bool {
        &&& self.library.wf()
        &&& self.running.wf()
        &&& self.open_preferences.wf()
        &&& running_consistent(self.running, self.library)
    }

    pub fn new() -> (r: Self)
        ensures
            r.wf(),
            r.library.inner@ == Map::<Seq<char>, LibraryItem>::empty(),
            forall|p: u32| r.running.lookup(p) is None,
            forall|m: Seq<char>, d: Option<Seq<char>>| r.open_preferences.lookup(m, d) is None,
    {
        Core { library: Library::new(), running: PidMap::new(), open_preferences: PrefMap::new() }
    }
}

/// Whether the recorded entry of `pid` still shows it running.
fn entry_live_exec(library: &Library, pid: u32, module: &String, uuid: &String) -> (r: bool)
    requires
        library.wf(),
    ensures
        r == entry_live(*library, pid, (*module, *uuid)),
{
    match library.inner.get(uuid) {
        Some(item) => match item.providers.get(module) {
            Some(p) => status_contains(&p.status, LibraryItemStatus::Running(Some(pid))),
            None => false,
        },
        None => false,
    }
}

impl Core {
    /// Drop every child-table entry whose running status is gone from the
    /// index, so that the table stays consistent after any change to it.
    fn prune_running(&mut self)
        requires
            old(self).library.wf(),
            old(self).running.wf(),
            old(self).open_preferences.wf(),
        ensures
            final(self).wf(),
            final(self).library == old(self).library,
            final(self).open_preferences == old(self).open_preferences,
            forall|pid: u32|
                (#[trigger] final(self).running.lookup(pid)) matches Some(e) ==> old(self).running.lookup(pid) == Some(e) && entry_live(old(self).library, pid, e),
            forall|pid: u32|
                (#[trigger] old(self).running.lookup(pid)) is Some && entry_live(
                    old(self).library,
                    pid,
                    old(self).running.lookup(pid)->Some_0,
                ) ==> final(self).running.lookup(pid) == old(self).running.lookup(pid),
    {
        let mut kept = PidMap::new();
        let n = self.running.len();
        for i in 0..n
            invariant
                n == self.running.entry_seq().len(),
                self.running.wf(),
                self.library.wf(),
                kept.wf(),
                forall|pid: u32|
                    (#[trigger] kept.lookup(pid)) matches Some(e) ==> self.running.lookup(pid)
                        == Some(e) && entry_live(self.library, pid, e),
                forall|j: int|
                    0 <= j < i ==> (entry_live(
                        self.library,
                        (#[trigger] self.running.entry_seq()[j]).0,
                        self.running.entry_seq()[j].1,
                    ) ==> kept.lookup(self.running.entry_seq()[j].0) == Some(
                        self.running.entry_seq()[j].1,
                    )),
        {
            let e = self.running.entry_at(i);
            let pid = e.0;
            let module = e.1.0.clone();
            let uuid = e.1.1.clone();
            let live = entry_live_exec(&self.library, pid, &module, &uuid);
            proof {
                crate::process::lemma_entry_lookup(self.running.entry_seq(), i as int);
            }
            if live {
                kept.insert(pid, module, uuid);
            }
        }
        proof {
            assert forall|pid: u32|
                (#[trigger] self.running.lookup(pid)) is Some && entry_live(
                    self.library,
                    pid,
                    self.running.lookup(pid)->Some_0,
                ) implies kept.lookup(pid) == self.running.lookup(pid) by {
                crate::process::lemma_pid_lookup_some(self.running.entry_seq(), pid);
                let e = self.running.lookup(pid)->Some_0;
                let j = choose|j: int|
                    0 <= j < self.running.entry_seq().len() && self.running.entry_seq()[j].0
                        == pid && self.running.entry_seq()[j].1 == e;
                crate::process::lemma_entry_lookup(self.running.entry_seq(), j);
            }
        }
        self.running = kept;
    }
}

/// The verified state machine of the daemon: the core state, the plugin
/// registry, and the frontend registry. The edge of the system feeds it
/// one event at a time and performs the effects it returns.
#[derive(Debug)]
pub struct EventLoop {
    pub core: Core,
    pub mods: ModuleManager,
    pub connections: SockStreamMap,
}

impl EventLoop {
    pub open spec fn wf(&self) -> bool {
        &&& self.core.wf()
        &&& self.mods.wf()
        &&& self.connections.wf()
    }

    /// A fresh loop around an already-built plugin registry.
    pub fn new(mods: ModuleManager) -> (r: Self)
        requires
            mods.wf(),
        ensures
            r.wf(),
            r.mods == mods,
            r.core.library.inner@ == Map::<Seq<char>, LibraryItem>::empty(),
            forall|p: u32| r.core.running.lookup(p) is None,
            forall|m: Seq<char>, d: Option<Seq<char>>|
                r.core.open_preferences.lookup(m, d) is None,
            r.connections@ == Map::<Seq<char>, bool>::empty(),
    {
        EventLoop { core: Core::new(), mods, connections: SockStreamMap::new() }
    }

    /// Apply a completed internal future.
    pub fn handle_internal(&mut self, fut: InternalCoreFutures) -> (r: Vec<CoreEffect>)
        requires
            old(self).wf(),
        ensures
            final(self).wf(),
            final(self).mods == old(self).mods,
            match fut {
                InternalCoreFutures::NewFrontendRegistered(name) => {
                    &&& final(self).core == old(self).core
                    &&& final(self).connections@ == old(self).connections@.insert(name@, false)
                    &&& r@.len() == 1
                    &&& (r@[0] matches CoreEffect::WriteFrontend(n, ev) && n@ == name@
                        && ev.version@ == crate::protocol_version() && ev.uuid is None
                        && (ev.action matches CoreActions::SignalSuccessHandshake(h) && h@
                        == name@))
                },
                InternalCoreFutures::ProcessDied(pid, status) => {
                    &&& final(self).connections == old(self).connections
                    &&& final(self).core.open_preferences == old(self).core.open_preferences
                    &&& final(self).core.running.lookup(pid) is None
                    &&& (forall|p: u32|
                        p != pid ==> final(self).core.running.lookup(p) == old(self).core.running.lookup(p))
                    &&& match old(self).core.running.lookup(pid) {
                        Some(e) => {
                            &&& final(self).core.library.inner@.contains_key(e.1@)
                            &&& !final(self).core.library.inner@[e.1@].providers@[e.0@].status@.contains(
                                LibraryItemStatus::Running(Some(pid)),
                            )
                            &&& (forall|k: Seq<char>|
                                #![all_triggers]
                                final(self).core.library.inner@.contains_key(k) <==> old(self).core.library.inner@.contains_key(k))
                            &&& (forall|k: Seq<char>|
                                #![all_triggers]
                                old(self).core.library.inner@.contains_key(k) && k != e.1@
                                    ==> final(self).core.library.inner@[k] == old(self).core.library.inner@[k])
                            &&& r@.len() == 1
                            &&& (r@[0] matches CoreEffect::Broadcast(ev) && ev.version@
                                == crate::protocol_version() && ev.uuid is None && (ev.action
                                matches CoreActions::ResponseGameUpdate(snap)
                                && frontend_matches(
                                final(self).core.library.inner@[e.1@],
                                snap,
                            )))
                        },
                        None => final(self).core.library == old(self).core.library && r@.len()
                            == 0,
                    }
                },
                InternalCoreFutures::DatabaseProcessDied => {
                    &&& *final(self) == *old(self)
                    &&& r@.len() == 1
                    &&& r@[0] is Shutdown
                },
                _ => *final(self) == *old(self) && r@.len() == 0,
            },
    {
        let mut effects: Vec<CoreEffect> = Vec::new();
        match fut {
            InternalCoreFutures::NewFrontendRegistered(name) => {
                let ack = self.connections.insert(name.clone());
                effects.push(CoreEffect::WriteFrontend(name, ack));
            },
            InternalCoreFutures::ProcessDied(pid, _status) => {
                match self.core.running.take(pid) {
                    Some((module, uuid)) => {
                        proof {
                            assert(old(self).core.running.lookup(pid) == Some((module, uuid)));
                        }
                        let res = self.core.library.update_item_state(
                            &uuid,
                            module,
                            UpdStateAction::Remove,
                            LibraryItemStatus::Running(Some(pid)),
                        );
                        proof {
                            assert(res is Ok);
                            crate::index::lemma_apply_status_action(
                                old(self).core.library.inner@[uuid@].providers@[old(self).core.running.lookup(pid)->Some_0.0@].status@,
                                UpdStateAction::Remove,
                                LibraryItemStatus::Running(Some(pid)),
                            );
                        }
                        let item = match self.core.library.get(&uuid) {
                            Ok(item) => item,
                            Err(_) => {
                                proof {
                                    assert(false);
                                }
                                return effects;
                            },
                        };
                        let snap = item.to_frontend();
                        effects.push(
                            CoreEffect::Broadcast(
                                CoreEvent::new(CoreActions::ResponseGameUpdate(snap), None),
                            ),
                        );
                        proof {
                            assert forall|p: u32|
                                (#[trigger] self.core.running.lookup(p)) is Some implies
                                entry_live(
                                self.core.library,
                                p,
                                self.core.running.lookup(p)->Some_0,
                            ) by {
                                let e = self.core.running.lookup(p)->Some_0;
                                assert(p != pid);
                                assert(old(self).core.running.lookup(p) == Some(e));
                            }
                        }
                    },
                    None => (),
                }
            },
            InternalCoreFutures::DatabaseProcessDied => {
                effects.push(CoreEffect::Shutdown);
            },
            InternalCoreFutures::Debug => (),
            InternalCoreFutures::Error(_) => (),
        }
        effects
    }

    /// Record a plugin task's death; later lookups of its id refuse it.
    pub fn handle_module_death(&mut self, plugin: &String)
        requires
            old(self).wf(),
        ensures
            final(self).wf(),
            final(self).core == old(self).core,
            final(self).connections == old(self).connections,
            old(self).mods.modules@.contains_key(plugin@) ==> final(self).mods.modules@ == old(self).mods.modules@.insert(
                plugin@,
                crate::modules::IModule {
                    info: old(self).mods.modules@[plugin@].info,
                    alive: false,
                },
            ),
            !old(self).mods.modules@.contains_key(plugin@) ==> final(self).mods == old(self).mods,
    {
        self.mods.mark_dead(plugin);
    }

    /// A frontend's bytes failed to decode: report it to that frontend,
    /// with no correlation id, and carry on.
    pub fn handle_frontend_decode_error(&self, name: &String, detail: String) -> (r: Vec<
        CoreEffect,
    >)
        ensures
            r@.len() == 1,
            (r@[0] matches CoreEffect::WriteFrontend(n, ev) && n@ == name@ && ev.version@
                == crate::protocol_version() && ev.uuid is None && (ev.action
                matches CoreActions::Error(t, d) && t@ == "Received invalid message"@ && d@
                == detail@)),
    {
        let mut effects: Vec<CoreEffect> = Vec::new();
        effects.push(
            CoreEffect::WriteFrontend(
                name.clone(),
                CoreEvent::new(
                    CoreActions::Error(
                        String::from_str("Received invalid message"),
                        detail,
                    ),
                    None,
                ),
            ),
        );
        effects
    }

    /// The named connection's stream ended; it is removed before the next
    /// dispatch by `begin_dispatch`.
    pub fn handle_frontend_terminated(&mut self, name: &String)
        requires
            old(self).wf(),
        ensures
            final(self).wf(),
            final(self).core == old(self).core,
            final(self).mods == old(self).mods,
            old(self).connections@.contains_key(name@) ==> final(self).connections@ == old(self).connections@.insert(name@, true),
            !old(self).connections@.contains_key(name@) ==> final(self).connections == old(self).connections,
    {
        self.connections.mark_terminated(name);
    }

    /// Run before each round of dispatch: every terminated connection is
    /// dropped, so no event is dispatched to such a name again.
    pub fn begin_dispatch(&mut self)
        requires
            old(self).wf(),
        ensures
            final(self).wf(),
            final(self).core == old(self).core,
            final(self).mods == old(self).mods,
            forall|k: Seq<char>|
                #![all_triggers]
                final(self).connections@.contains_key(k) <==> (old(self).connections@.contains_key(k) && old(self).connections@[k] == false),
    {
        self.connections.sweep_terminated();
    }
}


/// `eff` writes an `Error(tag, detail)` event to `name`, echoing `uuid`.
pub open spec fn is_error_write(
    eff: CoreEffect,
    name: Seq<char>,
    tag: Seq<char>,
    detail: Seq<char>,
    uuid: Option<String>,
) -> bool {
    eff matches CoreEffect::WriteFrontend(n, ev) && n@ == name && ev.version@
        == crate::protocol_version() && ev.uuid == uuid && (ev.action matches CoreActions::Error(
        t,
        d,
    ) && t@ == tag && d@ == detail)
}

/// `eff` broadcasts the compact snapshot of `item`, carrying `uuid`.
pub open spec fn is_game_update_broadcast(eff: CoreEffect, item: LibraryItem, uuid: Option<
    String,
>) -> bool {
    eff matches CoreEffect::Broadcast(ev) && ev.version@ == crate::protocol_version() && ev.uuid
        == uuid && (ev.action matches CoreActions::ResponseGameUpdate(snap) && frontend_matches(
        item,
        snap,
    ))
}

/// `eff` sends `LaunchLibraryItem(uuid)` to plugin `module`.
pub open spec fn is_launch_send(eff: CoreEffect, module: Seq<char>, uuid: Seq<char>) -> bool {
    eff matches CoreEffect::SendModule(m, cmd) && m@ == module && (cmd
        matches CoreCommands::LaunchLibraryItem(u) && u@ == uuid)
}

/// What one frontend `GameMethod` request does: the three implemented
/// methods launch or switch providers, the rest are accepted and ignored.
pub open spec fn game_method_post(
    pre: EventLoop,
    post: EventLoop,
    name: Seq<char>,
    method: crate::library::LibraryItemProviderMethods,
    uuid: Option<String>,
    r: Seq<CoreEffect>,
) -> bool {
    match method {
        crate::library::LibraryItemProviderMethods::Launch(guuid) => {
            if !pre.core.library.inner@.contains_key(guuid@) {
                post == pre && r.len() == 1 && is_error_write(
                    r[0],
                    name,
                    "Error running item"@,
                    crate::index::item_missing_text(guuid@),
                    uuid,
                )
            } else {
                let item = pre.core.library.inner@[guuid@];
                if pre.mods.has(item.active_provider@) {
                    post == pre && r.len() == 1 && is_launch_send(
                        r[0],
                        item.active_provider@,
                        guuid@,
                    )
                } else {
                    post == pre && r.len() == 1 && is_error_write(
                        r[0],
                        name,
                        "Error running item"@,
                        crate::index::module_missing_text(item.active_provider@),
                        uuid,
                    )
                }
            }
        },
        crate::library::LibraryItemProviderMethods::LaunchViaProvider(guuid, prov) => {
            if !pre.core.library.inner@.contains_key(guuid@) {
                post == pre && r.len() == 1 && is_error_write(
                    r[0],
                    name,
                    "Error running item via provider"@,
                    crate::index::item_missing_text(guuid@),
                    uuid,
                )
            } else {
                let item = pre.core.library.inner@[guuid@];
                if !item.providers@.contains_key(prov@) {
                    post == pre && r.len() == 1 && is_error_write(
                        r[0],
                        name,
                        "Error running item via provider"@,
                        crate::index::provider_missing_text(prov@),
                        uuid,
                    )
                } else if pre.mods.has(prov@) {
                    post == pre && r.len() == 1 && is_launch_send(r[0], prov@, guuid@)
                } else {
                    post == pre && r.len() == 1 && is_error_write(
                        r[0],
                        name,
                        "Error running item via provider"@,
                        crate::index::module_missing_text(prov@),
                        uuid,
                    )
                }
            }
        },
        crate::library::LibraryItemProviderMethods::ChangeSelectedProvider(guuid, prov) => {
            if !pre.core.library.inner@.contains_key(guuid@) {
                post == pre && r.len() == 1 && is_error_write(
                    r[0],
                    name,
                    "Error changing provider"@,
                    crate::index::item_missing_text(guuid@),
                    uuid,
                )
            } else {
                let oi = pre.core.library.inner@[guuid@];
                if !oi.providers@.contains_key(prov@) {
                    post == pre && r.len() == 2 && is_error_write(
                        r[0],
                        name,
                        "Error changing provider"@,
                        crate::index::provider_missing_text(prov@),
                        uuid,
                    ) && is_game_update_broadcast(r[1], oi, uuid)
                } else {
                    let ni = post.core.library.inner@[guuid@];
                    &&& post.mods == pre.mods
                    &&& post.connections == pre.connections
                    &&& post.core.running == pre.core.running
                    &&& post.core.open_preferences == pre.core.open_preferences
                    &&& (forall|k: Seq<char>|
                        #![all_triggers]
                        post.core.library.inner@.contains_key(k)
                            <==> pre.core.library.inner@.contains_key(k))
                    &&& (forall|k: Seq<char>|
                        #![all_triggers]
                        pre.core.library.inner@.contains_key(k) && k != guuid@
                            ==> post.core.library.inner@[k] == pre.core.library.inner@[k])
                    &&& ni.active_provider@ == prov@
                    &&& ni.uuid == oi.uuid
                    &&& ni.name == oi.name
                    &&& ni.kind == oi.kind
                    &&& ni.details == oi.details
                    &&& ni.providers == oi.providers
                    &&& r.len() == 1
                    &&& is_game_update_broadcast(r[0], ni, uuid)
                }
            }
        },
        _ => post == pre && r.len() == 0,
    }
}

impl EventLoop {
    /// Apply one frontend `GameMethod` request.
    pub fn handle_game_method(
        &mut self,
        name: &String,
        method: crate::library::LibraryItemProviderMethods,
        uuid: Option<String>,
    ) -> (r: Vec<CoreEffect>)
        requires
            old(self).wf(),
        ensures
            final(self).wf(),
            game_method_post(*old(self), *final(self), name@, method, uuid, r@),
    {
        let mut effects: Vec<CoreEffect> = Vec::new();
        match method {
            crate::library::LibraryItemProviderMethods::Launch(guuid) => {
                match self.core.library.launch_library_item(&guuid, &self.mods) {
                    Ok((m, cmd)) => {
                        effects.push(CoreEffect::SendModule(m, cmd));
                    },
                    Err(e) => {
                        let detail = e.message();
                        effects.push(
                            CoreEffect::WriteFrontend(
                                name.clone(),
                                CoreEvent::new(
                                    CoreActions::Error(
                                        String::from_str("Error running item"),
                                        detail,
                                    ),
                                    uuid,
                                ),
                            ),
                        );
                    },
                }
            },
            crate::library::LibraryItemProviderMethods::LaunchViaProvider(guuid, prov) => {
                match self.core.library.launch_library_item_from_provider(
                    &guuid,
                    &self.mods,
                    prov,
                ) {
                    Ok((m, cmd)) => {
                        effects.push(CoreEffect::SendModule(m, cmd));
                    },
                    Err(e) => {
                        let detail = e.message();
                        effects.push(
                            CoreEffect::WriteFrontend(
                                name.clone(),
                                CoreEvent::new(
                                    CoreActions::Error(
                                        String::from_str("Error running item via provider"),
                                        detail,
                                    ),
                                    uuid,
                                ),
                            ),
                        );
                    },
                }
            },
            crate::library::LibraryItemProviderMethods::ChangeSelectedProvider(guuid, prov) => {
                let ghost pre_lib = self.core.library;
                let ghost prov_view = prov@;
                let res = self.core.library.change_default_provider(&guuid, prov);
                let ghost ok = res is Ok;
                proof {
                    if pre_lib.inner@.contains_key(guuid@) {
                        let oi = pre_lib.inner@[guuid@];
                        assert(ok <==> oi.providers@.contains_key(prov_view));
                        if ok {
                            assert(self.core.library.inner@[guuid@].providers == oi.providers);
                        } else {
                            assert(self.core.library == pre_lib);
                        }
                    } else {
                        assert(self.core.library == pre_lib);
                    }
                }
                match res {
                    Ok(()) => (),
                    Err(e) => {
                        let detail = e.message();
                        effects.push(
                            CoreEffect::WriteFrontend(
                                name.clone(),
                                CoreEvent::new(
                                    CoreActions::Error(
                                        String::from_str("Error changing provider"),
                                        detail,
                                    ),
                                    uuid.clone(),
                                ),
                            ),
                        );
                    },
                }
                match self.core.library.get(&guuid) {
                    Ok(item) => {
                        let snap = item.to_frontend();
                        effects.push(
                            CoreEffect::Broadcast(
                                CoreEvent::new(CoreActions::ResponseGameUpdate(snap), uuid),
                            ),
                        );
                    },
                    Err(_) => (),
                }
                proof {
                    assert forall|p: u32|
                        (#[trigger] self.core.running.lookup(p)) is Some implies entry_live(
                        self.core.library,
                        p,
                        self.core.running.lookup(p)->Some_0,
                    ) by {
                        let e = self.core.running.lookup(p)->Some_0;
                        assert(entry_live(pre_lib, p, e));
                        if pre_lib.inner@.contains_key(guuid@) && ok {
                            if e.1@ == guuid@ {
                                assert(self.core.library.inner@.contains_key(e.1@));
                                assert(self.core.library.inner@[e.1@].providers
                                    == pre_lib.inner@[e.1@].providers);
                            } else {
                                assert(self.core.library.inner@[e.1@] == pre_lib.inner@[e.1@]);
                            }
                        } else {
                            assert(self.core.library == pre_lib);
                        }
                    }
                }
            },
            _ => (),
        }
        effects
    }
}


/// The library after one published item was merged under `module` with
/// the plugin's reported `info`.
pub open spec fn library_insert_effect(
    pre: Library,
    post: Library,
    module: Seq<char>,
    info: crate::module::ModuleInfo,
    item: crate::library::LibraryItemModule,
) -> bool {
    &&& post.inner@.contains_key(item.uuid@)
    &&& (forall|k: Seq<char>|
        #![all_triggers]
        post.inner@.contains_key(k) <==> (pre.inner@.contains_key(k) || k == item.uuid@))
    &&& (forall|k: Seq<char>|
        #![all_triggers]
        pre.inner@.contains_key(k) && k != item.uuid@ ==> post.inner@[k] == pre.inner@[k])
    &&& (pre.inner@.contains_key(item.uuid@) ==> item_provider_added(
        pre.inner@[item.uuid@],
        post.inner@[item.uuid@],
        module,
        info.name,
        info.icon,
        item.status@,
    ))
    &&& (!pre.inner@.contains_key(item.uuid@) ==> item_from_module(
        post.inner@[item.uuid@],
        module,
        info.name,
        info.icon,
        item,
    ))
}

/// The child table kept only entries it already had, and kept every one
/// that is still live in `lib`.
pub open spec fn running_pruned(pre: PidMap, post: PidMap, lib: Library) -> bool {
    &&& (forall|pid: u32|
        (#[trigger] post.lookup(pid)) is Some ==> post.lookup(pid) == pre.lookup(pid))
    &&& (forall|pid: u32|
        (#[trigger] pre.lookup(pid)) is Some && entry_live(lib, pid, pre.lookup(pid)->Some_0)
            ==> post.lookup(pid) == pre.lookup(pid))
}

impl EventLoop {
    /// Apply one message from a plugin task.
    pub fn handle_module_command(&mut self, plugin: String, cmd: ModuleCommands) -> (r: Vec<
        CoreEffect,
    >)
        requires
            old(self).wf(),
        ensures
            final(self).wf(),
            final(self).mods == old(self).mods,
            final(self).connections == old(self).connections,
            match cmd {
                ModuleCommands::Refresh => *final(self) == *old(self) && r@.len() == 0,
                ModuleCommands::AddLibraryItem(item) => {
                    &&& r@.len() == 0
                    &&& final(self).core.open_preferences == old(self).core.open_preferences
                    &&& (!old(self).mods.has(plugin@) ==> *final(self) == *old(self))
                    &&& (old(self).mods.has(plugin@) ==> library_insert_effect(
                        old(self).core.library,
                        final(self).core.library,
                        plugin@,
                        old(self).mods.info_of(plugin@),
                        item,
                    ) && running_pruned(
                        old(self).core.running,
                        final(self).core.running,
                        final(self).core.library,
                    ))
                },
                ModuleCommands::AddLibraryItemBulk(items) => {
                    &&& r@.len() == 0
                    &&& final(self).core.open_preferences == old(self).core.open_preferences
                    &&& (!(items@.len() == 0 || old(self).mods.has(plugin@)) ==> *final(self)
                        == *old(self))
                    &&& ((items@.len() == 0 || old(self).mods.has(plugin@)) ==> (forall|
                        k: Seq<char>,
                    |
                        #![all_triggers]
                        final(self).core.library.inner@.contains_key(k) <==> (old(self).core.library.inner@.contains_key(k) || exists|i: int|
                            0 <= i < items@.len() && items@[i].uuid@ == k)) && running_pruned(
                        old(self).core.running,
                        final(self).core.running,
                        final(self).core.library,
                    ))
                },
                ModuleCommands::ItemStatusSignal(sig) => {
                    match sig {
                        LibraryItemStatusSignals::Launched(guid, pid) => {
                            if old(self).core.library.inner@.contains_key(guid@) && old(self).core.library.inner@[guid@].providers@.contains_key(plugin@) {
                                let oi = old(self).core.library.inner@[guid@];
                                let ni = final(self).core.library.inner@[guid@];
                                &&& final(self).core.open_preferences == old(self).core.open_preferences
                                &&& (forall|k: Seq<char>|
                                    #![all_triggers]
                                    final(self).core.library.inner@.contains_key(k) <==> old(self).core.library.inner@.contains_key(k))
                                &&& (forall|k: Seq<char>|
                                    #![all_triggers]
                                    old(self).core.library.inner@.contains_key(k) && k != guid@
                                        ==> final(self).core.library.inner@[k] == old(self).core.library.inner@[k])
                                &&& ni.providers@[plugin@].status@ == crate::index::apply_status_action(
                                    oi.providers@[plugin@].status@,
                                    UpdStateAction::Add,
                                    LibraryItemStatus::Running(Some(pid)),
                                )
                                &&& final(self).core.running.lookup(pid) == Some(
                                    (plugin, guid),
                                )
                                &&& (forall|p: u32|
                                    p != pid ==> final(self).core.running.lookup(p) == old(self).core.running.lookup(p))
                                &&& r@.len() == 2
                                &&& (r@[0] matches CoreEffect::WatchProcess(p) && p == pid)
                                &&& is_game_update_broadcast(r@[1], ni, None)
                            } else {
                                *final(self) == *old(self) && r@.len() == 0
                            }
                        },
                        _ => *final(self) == *old(self) && r@.len() == 0,
                    }
                },
                ModuleCommands::PreferenceDiagResponse(itype, diag) => {
                    &&& final(self).core.library == old(self).core.library
                    &&& final(self).core.running == old(self).core.running
                    &&& match old(self).core.open_preferences.lookup(plugin@, itype@) {
                        Some(e) => {
                            &&& final(self).core.open_preferences.lookup(plugin@, itype@)
                                is None
                            &&& (forall|m: Seq<char>, d: Option<Seq<char>>|
                                !(m == plugin@ && d == itype@) ==> final(self).core.open_preferences.lookup(m, d) == old(self).core.open_preferences.lookup(m, d))
                            &&& r@.len() == 1
                            &&& (r@[0] matches CoreEffect::WriteFrontend(n, ev) && n
                                == e.frontend && ev.version@ == crate::protocol_version()
                                && ev.uuid == e.correlation && (ev.action
                                matches CoreActions::PreferenceDiagResponse(k, dg) && k.0
                                == plugin && k.1 == itype && dg == diag))
                        },
                        None => final(self).core.open_preferences == old(self).core.open_preferences && r@.len() == 0,
                    }
                },
            },
    {
        let mut effects: Vec<CoreEffect> = Vec::new();
        match cmd {
            ModuleCommands::Refresh => (),
            ModuleCommands::AddLibraryItem(item) => {
                match self.core.library.insert(plugin, item, &self.mods) {
                    Ok(()) => {
                        self.core.prune_running();
                    },
                    Err(_) => (),
                }
            },
            ModuleCommands::AddLibraryItemBulk(items) => {
                match self.core.library.bulk_insert(plugin, items, &self.mods) {
                    Ok(()) => {
                        self.core.prune_running();
                    },
                    Err(_) => (),
                }
            },
            ModuleCommands::ItemStatusSignal(sig) => {
                match sig {
                    LibraryItemStatusSignals::Launched(guid, pid) => {
                        let ghost pre_lib = self.core.library;
                        let res = self.core.library.update_item_state(
                            &guid,
                            plugin.clone(),
                            UpdStateAction::Add,
                            LibraryItemStatus::Running(Some(pid)),
                        );
                        match res {
                            Ok(()) => {
                                proof {
                                    crate::index::lemma_apply_status_action(
                                        pre_lib.inner@[guid@].providers@[plugin@].status@,
                                        UpdStateAction::Add,
                                        LibraryItemStatus::Running(Some(pid)),
                                    );
                                }
                                self.core.running.insert(pid, plugin.clone(), guid.clone());
                                effects.push(CoreEffect::WatchProcess(pid));
                                let item = match self.core.library.get(&guid) {
                                    Ok(item) => item,
                                    Err(_) => {
                                        proof {
                                            assert(false);
                                        }
                                        return effects;
                                    },
                                };
                                let snap = item.to_frontend();
                                effects.push(
                                    CoreEffect::Broadcast(
                                        CoreEvent::new(
                                            CoreActions::ResponseGameUpdate(snap),
                                            None,
                                        ),
                                    ),
                                );
                                proof {
                                    assert forall|p: u32|
                                        (#[trigger] self.core.running.lookup(p)) is Some implies
                                        entry_live(
                                        self.core.library,
                                        p,
                                        self.core.running.lookup(p)->Some_0,
                                    ) by {
                                        let e = self.core.running.lookup(p)->Some_0;
                                        if p != pid {
                                            assert(old(self).core.running.lookup(p) == Some(e));
                                            assert(entry_live(pre_lib, p, e));
                                        }
                                    }
                                }
                            },
                            Err(_) => (),
                        }
                    },
                    _ => (),
                }
            },
            ModuleCommands::PreferenceDiagResponse(itype, diag) => {
                match self.core.open_preferences.take(&plugin, &itype) {
                    Some((recv, muuid)) => {
                        effects.push(
                            CoreEffect::WriteFrontend(
                                recv,
                                CoreEvent::new(
                                    CoreActions::PreferenceDiagResponse((plugin, itype), diag),
                                    muuid,
                                ),
                            ),
                        );
                    },
                    None => (),
                }
            },
        }
        effects
    }

    /// Apply one decoded frontend message.
    pub fn handle_frontend_message(&mut self, name: &String, msg: FrontendEvent) -> (r: Vec<
        CoreEffect,
    >)
        requires
            old(self).wf(),
        ensures
            final(self).wf(),
            final(self).mods == old(self).mods,
            final(self).connections == old(self).connections,
            match msg.action {
                FrontendActions::GetGameLibrary => {
                    &&& *final(self) == *old(self)
                    &&& r@.len() == 1
                    &&& (r@[0] matches CoreEffect::WriteFrontend(n, ev) && n@ == name@
                        && ev.version@ == crate::protocol_version() && ev.uuid == msg.uuid && (
                    ev.action matches CoreActions::ResponseGameLibrary(snaps) && snaps@.len()
                        == old(self).core.library.inner.kv_seq().len() && (forall|i: int|
                        #![all_triggers]
                        0 <= i < snaps@.len() ==> frontend_matches(
                            old(self).core.library.inner.kv_seq()[i].1,
                            snaps@[i],
                        ))))
                },
                FrontendActions::GetFullGameLibrary => {
                    &&& *final(self) == *old(self)
                    &&& r@.len() == 1
                    &&& (r@[0] matches CoreEffect::WriteFrontend(n, ev) && n@ == name@
                        && ev.version@ == crate::protocol_version() && ev.uuid == msg.uuid && (
                    ev.action matches CoreActions::ResponseFullGameLibrary(snaps)
                        && snaps@.len() == old(self).core.library.inner.kv_seq().len() && (
                    forall|i: int|
                        #![all_triggers]
                        0 <= i < snaps@.len() ==> crate::index::frontend_details_matches(
                            old(self).core.library.inner.kv_seq()[i].1,
                            snaps@[i],
                        ))))
                },
                FrontendActions::GetGameDetails(guuid) => {
                    &&& *final(self) == *old(self)
                    &&& r@.len() == 1
                    &&& (old(self).core.library.inner@.contains_key(guuid@) ==> (r@[0]
                        matches CoreEffect::WriteFrontend(n, ev) && n@ == name@ && ev.version@
                        == crate::protocol_version() && ev.uuid == msg.uuid && (ev.action
                        matches CoreActions::ResponseItemDetails(d)
                        && crate::library::details_matches(
                        old(self).core.library.inner@[guuid@].details,
                        d,
                    ))))
                    &&& (!old(self).core.library.inner@.contains_key(guuid@) ==> is_error_write(
                        r@[0],
                        name@,
                        "Failed to get library item"@,
                        crate::index::item_missing_text(guuid@),
                        msg.uuid,
                    ))
                },
                FrontendActions::GameMethod(method) => game_method_post(
                    *old(self),
                    *final(self),
                    name@,
                    method,
                    msg.uuid,
                    r@,
                ),
                FrontendActions::RequestPreferenceDiag(module, itype) => {
                    &&& final(self).core.library == old(self).core.library
                    &&& final(self).core.running == old(self).core.running
                    &&& (!old(self).mods.has(module@) ==> *final(self) == *old(self) && r@.len()
                        == 0)
                    &&& (old(self).mods.has(module@) ==> ({
                        &&& (final(self).core.open_preferences.lookup(module@, itype@)
                            matches Some(e) && e.frontend@ == name@ && e.correlation == msg.uuid)
                        &&& (forall|m: Seq<char>, d: Option<Seq<char>>|
                            !(m == module@ && d == itype@) ==> final(self).core.open_preferences.lookup(m, d) == old(self).core.open_preferences.lookup(m, d))
                        &&& r@.len() == 1
                        &&& (r@[0] matches CoreEffect::SendModule(m, c) && m == module && (c
                            matches CoreCommands::RequestPreferenceDiag(d) && d@ == itype@))
                    }))
                },
                FrontendActions::PreferenceDiagUpdate(key, values) => {
                    &&& *final(self) == *old(self)
                    &&& (!old(self).mods.has(key.0@) ==> r@.len() == 0)
                    &&& (old(self).mods.has(key.0@) ==> r@.len() == 1 && (r@[0]
                        matches CoreEffect::SendModule(m, c) && m == key.0 && (c
                        matches CoreCommands::PreferenceDiagUpdate(d, vs) && d == key.1 && vs
                        == values)))
                },
            },
    {
        let mut effects: Vec<CoreEffect> = Vec::new();
        match msg.action {
            FrontendActions::GetGameLibrary => {
                let snaps = self.core.library.to_frontend();
                effects.push(
                    CoreEffect::WriteFrontend(
                        name.clone(),
                        CoreEvent::new(CoreActions::ResponseGameLibrary(snaps), msg.uuid),
                    ),
                );
            },
            FrontendActions::GetFullGameLibrary => {
                let snaps = self.core.library.to_full();
                effects.push(
                    CoreEffect::WriteFrontend(
                        name.clone(),
                        CoreEvent::new(CoreActions::ResponseFullGameLibrary(snaps), msg.uuid),
                    ),
                );
            },
            FrontendActions::GetGameDetails(guuid) => {
                match self.core.library.get(&guuid) {
                    Ok(item) => {
                        let details = item.details.clone();
                        effects.push(
                            CoreEffect::WriteFrontend(
                                name.clone(),
                                CoreEvent::new(
                                    CoreActions::ResponseItemDetails(details),
                                    msg.uuid,
                                ),
                            ),
                        );
                    },
                    Err(e) => {
                        let detail = e.message();
                        effects.push(
                            CoreEffect::WriteFrontend(
                                name.clone(),
                                CoreEvent::new(
                                    CoreActions::Error(
                                        String::from_str("Failed to get library item"),
                                        detail,
                                    ),
                                    msg.uuid,
                                ),
                            ),
                        );
                    },
                }
            },
            FrontendActions::GameMethod(method) => {
                return self.handle_game_method(name, method, msg.uuid);
            },
            FrontendActions::RequestPreferenceDiag(module, itype) => {
                let live = match self.mods.get_owned(&module) {
                    Ok(_) => true,
                    Err(_) => false,
                };
                if live {
                    self.core.open_preferences.insert(
                        module.clone(),
                        itype.clone(),
                        name.clone(),
                        msg.uuid,
                    );
                    effects.push(
                        CoreEffect::SendModule(
                            module,
                            CoreCommands::RequestPreferenceDiag(itype),
                        ),
                    );
                }
            },
            FrontendActions::PreferenceDiagUpdate(key, values) => {
                let (module, itype) = key;
                let live = match self.mods.get_owned(&module) {
                    Ok(_) => true,
                    Err(_) => false,
                };
                if live {
                    effects.push(
                        CoreEffect::SendModule(
                            module,
                            CoreCommands::PreferenceDiagUpdate(itype, values),
                        ),
                    );
                }
            },
        }
        effects
    }
}


/// The standing invariant of the child-process table: every recorded pid
/// belongs to a provider entry whose status set still shows it running.
pub proof fn lemma_child_table_consistent(ev: EventLoop, pid: u32)
    requires
        ev.wf(),
        ev.core.running.lookup(pid) is Some,
    ensures
        entry_live(ev.core.library, pid, ev.core.running.lookup(pid)->Some_0),
{
}

/// The standing invariant of the preference correlator: no two entries
/// share a `(plugin, scope)` key.
pub proof fn lemma_at_most_one_dialog(ev: EventLoop, i: int, j: int)
    requires
        ev.wf(),
        0 <= i < j < ev.core.open_preferences.entry_seq().len(),
    ensures
        !(ev.core.open_preferences.entry_seq()[i].module@
            == ev.core.open_preferences.entry_seq()[j].module@
            && ev.core.open_preferences.entry_seq()[i].scope@
            == ev.core.open_preferences.entry_seq()[j].scope@),
{
}

} // verus!

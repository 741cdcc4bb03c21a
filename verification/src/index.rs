//! The aggregated library index: deduplicated items, each with a set of
//! providers, an active provider, and per-provider status sets.

use crate::errors::{
    LibraryItemNotAvailableError, ModuleNotAvailableError, ProvModuleNotAvailableError,
};
use crate::library::{
    LibraryItemDetails, LibraryItemFrontend, LibraryItemFrontendDetails, LibraryItemKind,
    LibraryItemModule, LibraryItemStatus, LibraryProvider,
};
use crate::module::CoreCommands;
use crate::modules::ModuleManager;
use crate::smap::StringMap;
use vstd::prelude::*;

verus! {

/// Whether a status update adds the value to the set or removes it.
#[derive(Debug, Clone, Copy, PartialEq, Eq, Structural)]
pub enum UpdStateAction {
    Add,
    Remove,
}

/// One provider's contribution to an item: its display title and icon, the
/// status set it reports, and its own plugin id.
#[derive(Debug)]
pub struct ItemProvider {
    pub title: String,
    pub icon: Option<String>,
    pub status: Vec<LibraryItemStatus>,
    pub module: String,
}

/// A status sequence is a set: no two members are equal.
pub open spec fn no_dup_status(s: Seq<LibraryItemStatus>) -> bool {
    forall|i: int, j: int| 0 <= i < j < s.len() ==> s[i] != s[j]
}

impl ItemProvider {
    pub open spec fn wf(&self) -> bool {
        no_dup_status(self.status@)
    }
}

impl Clone for ItemProvider {
    fn clone(&self) -> (r: Self)
        ensures
            r.title == self.title,
            r.icon == self.icon,
            r.module == self.module,
            r.status@ == self.status@,
    {
        let status = self.status.clone();
        proof {
            assert(status@ =~= self.status@);
        }
        ItemProvider { title: self.title.clone(), icon: self.icon.clone(), status, module: self.module.clone() }
    }
}

/// Membership in a pushed sequence: the new element, or an old member.
pub proof fn lemma_push_contains(t: Seq<LibraryItemStatus>, e: LibraryItemStatus, s: LibraryItemStatus)
    ensures
        t.push(e).contains(s) <==> (t.contains(s) || s == e),
{
    if t.push(e).contains(s) {
        let k = choose|k: int| 0 <= k < t.push(e).len() && t.push(e)[k] == s;
        if k < t.len() {
            assert(t[k] == s);
        }
    }
    if t.contains(s) {
        let k = choose|k: int| 0 <= k < t.len() && t[k] == s;
        assert(t.push(e)[k] == s);
    }
    if s == e {
        assert(t.push(e)[t.len() as int] == s);
    }
}

/// Membership of a status value in a status sequence.
pub fn status_contains(v: &Vec<LibraryItemStatus>, s: LibraryItemStatus) -> (r: bool)
    ensures
        r == v@.contains(s),
{
    let n = v.len();
    for i in 0..n
        invariant
            n == v@.len(),
            forall|j: int| 0 <= j < i ==> v@[j] != s,
    {
        if v[i] == s {
            return true;
        }
    }
    proof {
        assert(!v@.contains(s));
    }
    false
}

/// Keep the first occurrence of each status value, so that the result is a
/// set with the same members.
pub fn dedup_status(v: Vec<LibraryItemStatus>) -> (r: Vec<LibraryItemStatus>)
    ensures
        no_dup_status(r@),
        forall|s: LibraryItemStatus| #![all_triggers] r@.contains(s) <==> v@.contains(s),
{
    let mut out: Vec<LibraryItemStatus> = Vec::new();
    let n = v.len();
    for i in 0..n
        invariant
            n == v@.len(),
            no_dup_status(out@),
            forall|s: LibraryItemStatus| #![all_triggers]
                out@.contains(s) <==> v@.subrange(0, i as int).contains(s),
    {
        let ghost pre = out@;
        let pushed = !status_contains(&out, v[i]);
        if pushed {
            out.push(v[i]);
        }
        proof {
            let sub = v@.subrange(0, i as int);
            let e = v@[i as int];
            assert(v@.subrange(0, i + 1) =~= sub.push(e));
            assert forall|s: LibraryItemStatus| #![all_triggers]
                out@.contains(s) <==> v@.subrange(0, i + 1).contains(s) by {
                lemma_push_contains(sub, e, s);
                if pushed {
                    lemma_push_contains(pre, e, s);
                }
            }
        }
    }
    proof {
        assert(v@.subrange(0, n as int) =~= v@);
    }
    out
}

/// The provider entry `p`, published under plugin id `module`, shows title
/// `title` and icon `icon`, and its status set has exactly the members of
/// `status_src`.
pub open spec fn provider_entry_matches(
    p: ItemProvider,
    module: Seq<char>,
    title: String,
    icon: Option<String>,
    status_src: Seq<LibraryItemStatus>,
) -> bool {
    &&& p.title == title
    &&& p.icon == icon
    &&& p.module@ == module
    &&& no_dup_status(p.status@)
    &&& forall|s: LibraryItemStatus| #![all_triggers] p.status@.contains(s) <==> status_src.contains(s)
}

/// An aggregated library item. `active_provider` is a key of `providers`;
/// every frontend-facing view of the active provider is projected from the
/// map on read.
#[derive(Debug)]
pub struct LibraryItem {
    pub uuid: String,
    pub name: String,
    pub kind: LibraryItemKind,
    pub details: LibraryItemDetails,
    pub active_provider: String,
    pub providers: StringMap<ItemProvider>,
}

impl LibraryItem {
    /// The item always has a provider, the active provider is one of them,
    /// every status set is free of duplicates, and every provider entry
    /// records the plugin id it is keyed under.
    pub open spec fn wf(&self) -> bool {
        &&& self.providers.wf()
        &&& self.providers@.contains_key(self.active_provider@)
        &&& forall|k: Seq<char>|
            self.providers@.contains_key(k) ==> (#[trigger] self.providers@[k]).wf()
                && self.providers@[k].module@ == k
    }

    /// A fresh item with `provider` as its only provider, which is also the
    /// active one.
    pub fn new(provider: String, title: String, icon: Option<String>, item: LibraryItemModule) -> (r:
        Self)
        ensures
            r.wf(),
            r.uuid == item.uuid,
            r.name == item.name,
            r.kind == item.kind,
            r.details == item.details,
            r.active_provider@ == provider@,
            r.providers.kv_seq().len() == 1,
            r.providers.kv_seq()[0].0@ == provider@,
            forall|k: Seq<char>| r.providers@.contains_key(k) <==> k == provider@,
            provider_entry_matches(
                r.providers@[provider@],
                provider@,
                title,
                icon,
                item.status@,
            ),
    {
        let status = dedup_status(item.status);
        let iprovider = ItemProvider {
            title,
            icon,
            status,
            module: provider.clone(),
        };
        let mut providers: StringMap<ItemProvider> = StringMap::new();
        providers.insert(provider.clone(), iprovider);
        proof {
            providers.lemma_kv_index(0);
            providers.lemma_contains(provider@);
            assert(forall|k: Seq<char>| providers@.contains_key(k) ==> k == provider@) by {
                assert forall|k: Seq<char>| providers@.contains_key(k) implies k == provider@ by {
                    providers.lemma_contains(k);
                }
            }
            assert(providers@.dom().contains(provider@));
        }
        LibraryItem {
            uuid: item.uuid,
            name: item.name,
            kind: item.kind,
            details: item.details,
            active_provider: provider,
            providers,
        }
    }

    /// Add (or replace) the provider entry published under `provider`.
    /// Name, kind, details and the active provider stay as they are.
    pub fn add_provider(
        &mut self,
        provider: String,
        title: String,
        icon: Option<String>,
        status: Vec<LibraryItemStatus>,
    )
        requires
            old(self).wf(),
        ensures
            final(self).wf(),
            final(self).uuid == old(self).uuid,
            final(self).name == old(self).name,
            final(self).kind == old(self).kind,
            final(self).details == old(self).details,
            final(self).active_provider == old(self).active_provider,
            final(self).providers@ == old(self).providers@.insert(
                provider@,
                final(self).providers@[provider@],
            ),
            provider_entry_matches(
                final(self).providers@[provider@],
                provider@,
                title,
                icon,
                status@,
            ),
            forall|k: Seq<char>|
                #![all_triggers]
                final(self).providers@.contains_key(k) <==> (old(self).providers@.contains_key(k)
                    || k == provider@),
            forall|k: Seq<char>|
                #![all_triggers]
                old(self).providers@.contains_key(k) && k != provider@
                    ==> final(self).providers@[k] == old(self).providers@[k],
    {
        let status = dedup_status(status);
        let entry = ItemProvider {
            title,
            icon,
            status,
            module: provider.clone(),
        };
        self.providers.insert(provider, entry);
        proof {
            assert(self.providers@ =~= old(self).providers@.insert(
                provider@,
                self.providers@[provider@],
            ));
            assert forall|k: Seq<char>|
                self.providers@.contains_key(k) implies (#[trigger] self.providers@[k]).wf()
                && self.providers@[k].module@ == k by {
                if k != provider@ {
                    assert(self.providers@[k] == old(self).providers@[k]);
                }
            }
        }
    }

    /// Make `provider` the active provider; it must already be one of the
    /// item's providers.
    pub fn change_default_provider(&mut self, provider: String) -> (r: Result<
        (),
        ProvModuleNotAvailableError,
    >)
        requires
            old(self).wf(),
        ensures
            final(self).wf(),
            r is Ok <==> old(self).providers@.contains_key(provider@),
            r is Ok ==> final(self).active_provider@ == provider@
                && final(self).uuid == old(self).uuid && final(self).name == old(self).name
                && final(self).kind == old(self).kind && final(self).details == old(self).details
                && final(self).providers == old(self).providers,
            r matches Err(e) ==> *final(self) == *old(self) && e.name@ == provider@,
    {
        if self.providers.contains_key(&provider) {
            self.active_provider = provider;
            Ok(())
        } else {
            Err(ProvModuleNotAvailableError::new(provider))
        }
    }
}


/// The status sequence with every copy of `state` taken out.
pub open spec fn status_without(s: Seq<LibraryItemStatus>, state: LibraryItemStatus) -> Seq<
    LibraryItemStatus,
> {
    s.filter(|x: LibraryItemStatus| x != state)
}

/// What `status_without` holds: exactly the old members other than
/// `state`, without duplicates if there were none, and the sequence
/// itself when `state` was absent.
pub proof fn lemma_status_without(s: Seq<LibraryItemStatus>, state: LibraryItemStatus)
    ensures
        forall|x: LibraryItemStatus| #![all_triggers]
            status_without(s, state).contains(x) <==> (s.contains(x) && x != state),
        no_dup_status(s) ==> no_dup_status(status_without(s, state)),
        !s.contains(state) ==> status_without(s, state) == s,
    decreases s.len(),
{
    reveal(Seq::filter);
    if s.len() == 0 {
        assert(status_without(s, state) =~= s);
        assert forall|x: LibraryItemStatus| #![all_triggers]
            status_without(s, state).contains(x) <==> (s.contains(x) && x != state) by {}
    } else {
        let dl = s.drop_last();
        let e = s.last();
        lemma_status_without(dl, state);
        assert(s =~= dl.push(e));
        let w = status_without(dl, state);
        if e != state {
            assert(status_without(s, state) == w.push(e));
        } else {
            assert(status_without(s, state) == w);
        }
        assert forall|x: LibraryItemStatus| #![all_triggers]
            status_without(s, state).contains(x) <==> (s.contains(x) && x != state) by {
            lemma_push_contains(dl, e, x);
            if e != state {
                lemma_push_contains(w, e, x);
            }
        }
        if no_dup_status(s) {
            assert(no_dup_status(dl)) by {
                assert(forall|a: int, b: int|
                    0 <= a < b < dl.len() ==> dl[a] == s[a] && dl[b] == s[b]);
            }
            if e != state {
                assert(!dl.contains(e)) by {
                    if dl.contains(e) {
                        let k = choose|k: int| 0 <= k < dl.len() && dl[k] == e;
                        assert(s[k] == s[s.len() - 1]);
                    }
                }
                assert(!w.contains(e));
                assert forall|a: int, b: int|
                    0 <= a < b < w.push(e).len() implies w.push(e)[a] != w.push(e)[b] by {
                    if b == w.len() {
                        if w[a] == e {
                            assert(w.contains(e));
                        }
                    }
                }
            }
        }
        if !s.contains(state) {
            assert(!dl.contains(state)) by {
                if dl.contains(state) {
                    let k = choose|k: int| 0 <= k < dl.len() && dl[k] == state;
                    assert(s[k] == state);
                }
            }
            assert(e != state) by {
                assert(s[s.len() - 1] == e);
            }
            assert(status_without(s, state) == w.push(e));
            assert(status_without(s, state) =~= s);
        }
    }
}

/// The status sequence after one update: `Add` appends an absent value at
/// the end and leaves a present one alone; `Remove` filters the value out.
pub open spec fn apply_status_action(
    s: Seq<LibraryItemStatus>,
    action: UpdStateAction,
    state: LibraryItemStatus,
) -> Seq<LibraryItemStatus> {
    match action {
        UpdStateAction::Add => if s.contains(state) {
            s
        } else {
            s.push(state)
        },
        UpdStateAction::Remove => status_without(s, state),
    }
}

/// The status sequence of an update stays a set.
pub proof fn lemma_apply_status_action(
    s: Seq<LibraryItemStatus>,
    action: UpdStateAction,
    state: LibraryItemStatus,
)
    requires
        no_dup_status(s),
    ensures
        no_dup_status(apply_status_action(s, action, state)),
        forall|x: LibraryItemStatus| #![all_triggers]
            apply_status_action(s, action, state).contains(x) <==> match action {
                UpdStateAction::Add => s.contains(x) || x == state,
                UpdStateAction::Remove => s.contains(x) && x != state,
            },
{
    match action {
        UpdStateAction::Add => {
            if !s.contains(state) {
                assert forall|a: int, b: int|
                    0 <= a < b < s.push(state).len() implies s.push(state)[a] != s.push(
                    state,
                )[b] by {
                    if b == s.len() {
                        if s[a] == state {
                            assert(s.contains(state));
                        }
                    }
                }
            }
            assert forall|x: LibraryItemStatus| #![all_triggers]
                apply_status_action(s, action, state).contains(x) <==> (s.contains(x) || x
                    == state) by {
                lemma_push_contains(s, state, x);
            }
        },
        UpdStateAction::Remove => {
            lemma_status_without(s, state);
        },
    }
}

/// Build the filtered status vector.
fn remove_status_vec(v: &Vec<LibraryItemStatus>, state: LibraryItemStatus) -> (r: Vec<
    LibraryItemStatus,
>)
    ensures
        r@ == status_without(v@, state),
{
    let mut out: Vec<LibraryItemStatus> = Vec::new();
    let n = v.len();
    for i in 0..n
        invariant
            n == v@.len(),
            out@ == status_without(v@.subrange(0, i as int), state),
    {
        let ghost sub = v@.subrange(0, i as int);
        if !(v[i] == state) {
            out.push(v[i]);
        }
        proof {
            reveal(Seq::filter);
            let e = v@[i as int];
            assert(v@.subrange(0, i + 1) =~= sub.push(e));
            assert(sub.push(e).drop_last() =~= sub);
            assert(sub.push(e).drop_last() == sub);
            if e != state {
                assert(status_without(sub.push(e), state) == status_without(sub, state).push(e));
            } else {
                assert(status_without(sub.push(e), state) == status_without(sub, state));
            }
        }
    }
    proof {
        reveal(Seq::filter);
        assert(v@.subrange(0, n as int) =~= v@);
        if n == 0 {
            assert(out@ =~= status_without(v@, state));
        }
    }
    out
}

impl LibraryItem {
    /// Apply one status update to the named provider's status set. When
    /// the mutated provider is the active one, every later read of the
    /// active provider sees the change, because active-provider views are
    /// projected from the map.
    pub fn update_state(
        &mut self,
        provider: String,
        action: UpdStateAction,
        state: LibraryItemStatus,
    ) -> (r: Result<(), ProvModuleNotAvailableError>)
        requires
            old(self).wf(),
        ensures
            final(self).wf(),
            r is Ok <==> old(self).providers@.contains_key(provider@),
            r matches Err(e) ==> *final(self) == *old(self) && e.name@ == provider@,
            r is Ok ==> final(self).uuid == old(self).uuid && final(self).name == old(self).name
                && final(self).kind == old(self).kind && final(self).details == old(self).details
                && final(self).active_provider == old(self).active_provider,
            r is Ok ==> forall|k: Seq<char>|
                #![all_triggers]
                final(self).providers@.contains_key(k) <==> old(self).providers@.contains_key(k),
            r is Ok ==> forall|k: Seq<char>|
                #![all_triggers]
                old(self).providers@.contains_key(k) && k != provider@ ==> final(
                    self).providers@[k] == old(self).providers@[k],
            r is Ok ==> ({
                let op = old(self).providers@[provider@];
                let np = final(self).providers@[provider@];
                np.title == op.title && np.icon == op.icon && np.module == op.module
                    && np.status@ == apply_status_action(op.status@, action, state)
            }),
    {
        let idx = match self.providers.index_of(&provider) {
            Some(i) => i,
            None => {
                return Err(ProvModuleNotAvailableError::new(provider));
            },
        };
        let p = self.providers.value_at(idx);
        let new_status: Vec<LibraryItemStatus> = if action == UpdStateAction::Remove {
            remove_status_vec(&p.status, state)
        } else {
            let mut ns = p.status.clone();
            proof {
                assert(ns@ =~= p.status@);
            }
            if !status_contains(&ns, state) {
                ns.push(state);
            }
            ns
        };
        let entry = ItemProvider {
            title: p.title.clone(),
            icon: p.icon.clone(),
            status: new_status,
            module: p.module.clone(),
        };
        proof {
            self.providers.lemma_kv_index(idx as int);
            lemma_apply_status_action(
                old(self).providers@[provider@].status@,
                action,
                state,
            );
        }
        self.providers.set_value_at(idx, entry);
        proof {
            assert(self.providers@ =~= old(self).providers@.insert(
                provider@,
                self.providers@[provider@],
            ));
            assert forall|k: Seq<char>|
                self.providers@.contains_key(k) implies (#[trigger] self.providers@[k]).wf()
                && self.providers@[k].module@ == k by {
                if k != provider@ {
                    assert(self.providers@[k] == old(self).providers@[k]);
                }
            }
        }
        Ok(())
    }

    /// The command that launches this item through its active provider:
    /// owed exactly when that provider's plugin task is alive.
    pub fn run_default(&self, mod_mgr: &ModuleManager) -> (r: Result<
        (String, CoreCommands),
        ModuleNotAvailableError,
    >)
        requires
            self.wf(),
            mod_mgr.wf(),
        ensures
            r is Ok <==> mod_mgr.has(self.active_provider@),
            r matches Ok((m, cmd)) ==> m@ == self.active_provider@ && (cmd
                matches CoreCommands::LaunchLibraryItem(u) && u@ == self.uuid@),
            r matches Err(e) ==> e.name@ == self.active_provider@,
    {
        let idx = self.providers.index_of(&self.active_provider).unwrap();
        let p = self.providers.value_at(idx);
        match mod_mgr.get(&p.module) {
            Ok(_) => Ok((p.module.clone(), CoreCommands::LaunchLibraryItem(self.uuid.clone()))),
            Err(e) => Err(e),
        }
    }

    /// The command that launches this item through the named provider:
    /// owed exactly when that provider is one of the item's providers and
    /// its plugin task is alive.
    pub fn run_provider(&self, mod_mgr: &ModuleManager, provider: String) -> (r: Result<
        (String, CoreCommands),
        LibraryError,
    >)
        requires
            self.wf(),
            mod_mgr.wf(),
        ensures
            r is Ok <==> (self.providers@.contains_key(provider@) && mod_mgr.has(provider@)),
            r matches Ok((m, cmd)) ==> m@ == provider@ && (cmd
                matches CoreCommands::LaunchLibraryItem(u) && u@ == self.uuid@),
            !self.providers@.contains_key(provider@) ==> (r matches Err(
                LibraryError::Provider(e)) && e.name@ == provider@),
            self.providers@.contains_key(provider@) && !mod_mgr.has(provider@) ==> (r matches Err(
                LibraryError::Module(e)) && e.name@ == provider@),
    {
        match self.providers.index_of(&provider) {
            Some(idx) => {
                let p = self.providers.value_at(idx);
                match mod_mgr.get(&p.module) {
                    Ok(_) => Ok(
                        (p.module.clone(), CoreCommands::LaunchLibraryItem(self.uuid.clone())),
                    ),
                    Err(e) => Err(LibraryError::Module(e)),
                }
            },
            None => Err(LibraryError::Provider(ProvModuleNotAvailableError::new(provider))),
        }
    }
}

/// An error of the library index, as the event loop reports it to the
/// requesting frontend.
#[derive(Debug)]
pub enum LibraryError {
    Module(ModuleNotAvailableError),
    Provider(ProvModuleNotAvailableError),
    Item(LibraryItemNotAvailableError),
}

/// The message text reported when an item uuid is not in the library.
pub open spec fn item_missing_text(u: Seq<char>) -> Seq<char> {
    "Attemt to find "@ + u + " in library was unsuccessful"@
}

/// The message text reported when a plugin id is not loaded or alive.
pub open spec fn module_missing_text(m: Seq<char>) -> Seq<char> {
    "Attemt to find unloaded module: "@ + m
}

/// The message text reported when an item has no such provider.
pub open spec fn provider_missing_text(m: Seq<char>) -> Seq<char> {
    "The FE requested a module that was not available: "@ + m
}

/// The message text of a library error.
pub open spec fn library_error_text(e: LibraryError) -> Seq<char> {
    match e {
        LibraryError::Module(m) => module_missing_text(m.name@),
        LibraryError::Provider(p) => provider_missing_text(p.name@),
        LibraryError::Item(i) => item_missing_text(i.name@),
    }
}

impl LibraryError {
    pub fn message(&self) -> (r: String)
        ensures
            r@ == library_error_text(*self),
    {
        match self {
            LibraryError::Module(e) => e.message(),
            LibraryError::Provider(e) => e.message(),
            LibraryError::Item(e) => e.message(),
        }
    }
}

/// The frontend record `lp` is the projection of provider entry `p`
/// published under plugin id `key`.
pub open spec fn provider_matches(key: Seq<char>, p: ItemProvider, lp: LibraryProvider) -> bool {
    &&& lp.uuid@ == key
    &&& lp.name == p.title
    &&& lp.icon == p.icon
    &&& lp.stati@ == p.status@
}

/// The compact snapshot `r` is the projection of `item`: same identity,
/// the active provider projected from the map, and every provider
/// projected in map order.
pub open spec fn frontend_matches(item: LibraryItem, r: LibraryItemFrontend) -> bool {
    &&& r.uuid == item.uuid
    &&& r.name == item.name
    &&& r.kind == item.kind
    &&& provider_matches(
        item.active_provider@,
        item.providers@[item.active_provider@],
        r.active_provider,
    )
    &&& r.providers.wf()
    &&& r.providers.kv_seq().len() == item.providers.kv_seq().len()
    &&& forall|i: int|
        #![all_triggers]
        0 <= i < item.providers.kv_seq().len() ==> r.providers.kv_seq()[i].0
            == item.providers.kv_seq()[i].0 && provider_matches(
            item.providers.kv_seq()[i].0@,
            item.providers.kv_seq()[i].1,
            r.providers.kv_seq()[i].1,
        )
}

/// The full snapshot matches the item and carries the same details.
pub open spec fn frontend_details_matches(item: LibraryItem, r: LibraryItemFrontendDetails) -> bool {
    &&& r.uuid == item.uuid
    &&& r.name == item.name
    &&& r.kind == item.kind
    &&& crate::library::details_matches(item.details, r.details)
    &&& provider_matches(
        item.active_provider@,
        item.providers@[item.active_provider@],
        r.active_provider,
    )
    &&& r.providers.wf()
    &&& r.providers.kv_seq().len() == item.providers.kv_seq().len()
    &&& forall|i: int|
        #![all_triggers]
        0 <= i < item.providers.kv_seq().len() ==> r.providers.kv_seq()[i].0
            == item.providers.kv_seq()[i].0 && provider_matches(
            item.providers.kv_seq()[i].0@,
            item.providers.kv_seq()[i].1,
            r.providers.kv_seq()[i].1,
        )
}

impl LibraryItem {
    /// Project one provider entry to its frontend record.
    fn project_provider(key: &String, p: &ItemProvider) -> (r: LibraryProvider)
        ensures
            provider_matches(key@, *p, r),
    {
        let stati = p.status.clone();
        proof {
            assert(stati@ =~= p.status@);
        }
        LibraryProvider::new(key.clone(), p.title.clone(), p.icon.clone(), stati)
    }

    /// Project the whole provider map in map order.
    fn project_providers(&self) -> (r: StringMap<LibraryProvider>)
        requires
            self.providers.wf(),
        ensures
            r.wf(),
            r.kv_seq().len() == self.providers.kv_seq().len(),
            forall|i: int|
                #![all_triggers]
                0 <= i < self.providers.kv_seq().len() ==> r.kv_seq()[i].0
                    == self.providers.kv_seq()[i].0 && provider_matches(
                    self.providers.kv_seq()[i].0@,
                    self.providers.kv_seq()[i].1,
                    r.kv_seq()[i].1,
                ),
    {
        let mut out: StringMap<LibraryProvider> = StringMap::new();
        let n = self.providers.len();
        for i in 0..n
            invariant
                n == self.providers.kv_seq().len(),
                self.providers.wf(),
                out.wf(),
                out.kv_seq().len() == i,
                forall|j: int|
                    #![all_triggers]
                    0 <= j < i ==> out.kv_seq()[j].0 == self.providers.kv_seq()[j].0
                        && provider_matches(
                        self.providers.kv_seq()[j].0@,
                        self.providers.kv_seq()[j].1,
                        out.kv_seq()[j].1,
                    ),
        {
            let key = self.providers.key_at(i);
            let p = self.providers.value_at(i);
            let lp = Self::project_provider(key, p);
            proof {
                out.lemma_contains(key@);
                assert(!out@.contains_key(key@));
            }
            out.insert(key.clone(), lp);
        }
        out
    }

    /// The compact frontend view of this item.
    pub fn to_frontend(&self) -> (r: LibraryItemFrontend)
        requires
            self.wf(),
        ensures
            frontend_matches(*self, r),
    {
        let idx = self.providers.index_of(&self.active_provider).unwrap();
        let active = Self::project_provider(
            self.providers.key_at(idx),
            self.providers.value_at(idx),
        );
        LibraryItemFrontend {
            uuid: self.uuid.clone(),
            name: self.name.clone(),
            kind: self.kind,
            active_provider: active,
            providers: self.project_providers(),
        }
    }

    /// The full frontend view of this item, details included.
    pub fn to_full(&self) -> (r: LibraryItemFrontendDetails)
        requires
            self.wf(),
        ensures
            frontend_details_matches(*self, r),
    {
        let idx = self.providers.index_of(&self.active_provider).unwrap();
        let active = Self::project_provider(
            self.providers.key_at(idx),
            self.providers.value_at(idx),
        );
        LibraryItemFrontendDetails {
            uuid: self.uuid.clone(),
            name: self.name.clone(),
            kind: self.kind,
            details: self.details.clone(),
            active_provider: active,
            providers: self.project_providers(),
        }
    }
}


/// The item `ni` is `oi` with a provider entry for `module` added (or
/// replaced); identity, details and the active provider are untouched.
pub open spec fn item_provider_added(
    oi: LibraryItem,
    ni: LibraryItem,
    module: Seq<char>,
    title: String,
    icon: Option<String>,
    status: Seq<LibraryItemStatus>,
) -> bool {
    &&& ni.uuid == oi.uuid
    &&& ni.name == oi.name
    &&& ni.kind == oi.kind
    &&& ni.details == oi.details
    &&& ni.active_provider == oi.active_provider
    &&& provider_entry_matches(ni.providers@[module], module, title, icon, status)
    &&& forall|k: Seq<char>|
        #![all_triggers]
        ni.providers@.contains_key(k) <==> (oi.providers@.contains_key(k) || k == module)
    &&& forall|k: Seq<char>|
        #![all_triggers]
        oi.providers@.contains_key(k) && k != module ==> ni.providers@[k] == oi.providers@[k]
}

/// The item `ni` is freshly created from the published record `src` with
/// `module` as its only, active provider.
pub open spec fn item_from_module(
    ni: LibraryItem,
    module: Seq<char>,
    title: String,
    icon: Option<String>,
    src: LibraryItemModule,
) -> bool {
    &&& ni.uuid == src.uuid
    &&& ni.name == src.name
    &&& ni.kind == src.kind
    &&& ni.details == src.details
    &&& ni.active_provider@ == module
    &&& forall|k: Seq<char>| ni.providers@.contains_key(k) <==> k == module
    &&& provider_entry_matches(ni.providers@[module], module, title, icon, src.status@)
}

/// The aggregated library: items keyed by their uuid.
#[derive(Debug)]
pub struct Library {
    pub inner: StringMap<LibraryItem>,
}

impl Library {
    /// Every item is well-formed and stored under its own uuid.
    pub open spec fn wf(&self) -> bool {
        &&& self.inner.wf()
        &&& forall|k: Seq<char>|
            self.inner@.contains_key(k) ==> (#[trigger] self.inner@[k]).wf()
                && self.inner@[k].uuid@ == k
    }

    pub fn new() -> (r: Self)
        ensures
            r.wf(),
            r.inner@ == Map::<Seq<char>, LibraryItem>::empty(),
            r.inner.kv_seq() == Seq::<(String, LibraryItem)>::empty(),
    {
        Library { inner: StringMap::new() }
    }

    /// Merge one published item: a new uuid creates the item with the
    /// publishing plugin as its only provider; a known uuid gains (or
    /// refreshes) that plugin's provider entry and keeps everything else.
    /// The provider's display title and icon come from the plugin's own
    /// information.
    pub fn insert(
        &mut self,
        module: String,
        item: LibraryItemModule,
        mod_mgr: &ModuleManager,
    ) -> (r: Result<(), ModuleNotAvailableError>)
        requires
            old(self).wf(),
            mod_mgr.wf(),
        ensures
            final(self).wf(),
            r is Ok <==> mod_mgr.has(module@),
            r matches Err(e) ==> *final(self) == *old(self) && e.name@ == module@,
            r is Ok ==> ({
                let info = mod_mgr.info_of(module@);
                &&& final(self).inner@.contains_key(item.uuid@)
                &&& forall|k: Seq<char>|
                    #![all_triggers]
                    final(self).inner@.contains_key(k) <==> (old(self).inner@.contains_key(k) || k
                        == item.uuid@)
                &&& forall|k: Seq<char>|
                    #![all_triggers]
                    old(self).inner@.contains_key(k) && k != item.uuid@ ==> final(
                        self).inner@[k] == old(self).inner@[k]
                &&& (old(self).inner@.contains_key(item.uuid@) ==> item_provider_added(
                    old(self).inner@[item.uuid@],
                    final(self).inner@[item.uuid@],
                    module@,
                    info.name,
                    info.icon,
                    item.status@,
                ))
                &&& (!old(self).inner@.contains_key(item.uuid@) ==> item_from_module(
                    final(self).inner@[item.uuid@],
                    module@,
                    info.name,
                    info.icon,
                    item,
                ))
            }),
    {
        let m = match mod_mgr.get(&module) {
            Ok(m) => m,
            Err(e) => {
                return Err(e);
            },
        };
        let title = m.info.name.clone();
        let icon = m.info.icon.clone();
        match self.inner.index_of(&item.uuid) {
            Some(i) => {
                let (key, mut existing) = self.inner.remove_at(i);
                existing.add_provider(module, title, icon, item.status);
                let ghost mid = self.inner@;
                self.inner.insert(key, existing);
                proof {
                    assert(self.inner@ =~= old(self).inner@.insert(
                        item.uuid@,
                        self.inner@[item.uuid@],
                    ));
                    assert forall|k: Seq<char>|
                        self.inner@.contains_key(k) implies (#[trigger] self.inner@[k]).wf()
                        && self.inner@[k].uuid@ == k by {
                        if k != item.uuid@ {
                            assert(self.inner@[k] == old(self).inner@[k]);
                        }
                    }
                }
                Ok(())
            },
            None => {
                let fresh = LibraryItem::new(module, title, icon, item);
                self.inner.insert(fresh.uuid.clone(), fresh);
                proof {
                    assert forall|k: Seq<char>|
                        self.inner@.contains_key(k) implies (#[trigger] self.inner@[k]).wf()
                        && self.inner@[k].uuid@ == k by {
                        if k != item.uuid@ {
                            assert(self.inner@[k] == old(self).inner@[k]);
                        }
                    }
                }
                Ok(())
            },
        }
    }

    /// Fold of `insert`; the first failure aborts the remainder. Every
    /// insert of this call fails or succeeds alike, because only a missing
    /// plugin fails.
    #[verifier::loop_isolation(false)]
    pub fn bulk_insert(
        &mut self,
        module: String,
        items: Vec<LibraryItemModule>,
        mod_mgr: &ModuleManager,
    ) -> (r: Result<(), ModuleNotAvailableError>)
        requires
            old(self).wf(),
            mod_mgr.wf(),
        ensures
            final(self).wf(),
            r is Ok <==> (items@.len() == 0 || mod_mgr.has(module@)),
            r matches Err(e) ==> *final(self) == *old(self) && e.name@ == module@,
            r is Ok ==> forall|k: Seq<char>|
                #![all_triggers]
                final(self).inner@.contains_key(k) <==> (old(self).inner@.contains_key(k)
                    || exists|i: int| 0 <= i < items@.len() && items@[i].uuid@ == k),
            r is Ok ==> forall|k: Seq<char>|
                #![all_triggers]
                old(self).inner@.contains_key(k) && (forall|i: int|
                    0 <= i < items@.len() ==> items@[i].uuid@ != k) ==> final(self).inner@[k]
                    == old(self).inner@[k],
    {
        let ghost all = items@;
        let mut pending = items;
        let n = pending.len();
        let mut idx: usize = 0;
        loop
            invariant
                idx <= n,
                n == all.len(),
                pending@ == all.skip(idx as int),
                idx == 0 ==> *self == *old(self),
                self.wf(),
                mod_mgr.wf(),
                idx > 0 ==> mod_mgr.has(module@),
                forall|k: Seq<char>|
                    #![all_triggers]
                    self.inner@.contains_key(k) <==> (old(self).inner@.contains_key(k)
                        || exists|i: int| 0 <= i < idx && all[i].uuid@ == k),
                forall|k: Seq<char>|
                    #![all_triggers]
                    old(self).inner@.contains_key(k) && (forall|i: int|
                        0 <= i < idx ==> all[i].uuid@ != k) ==> self.inner@[k] == old(
                        self).inner@[k],
            decreases n - idx,
        {
            if idx == n {
                break;
            }
            proof {
                assert(all.skip(idx as int).len() > 0);
                assert(all.skip(idx as int)[0] == all[idx as int]);
            }
            let item = pending.remove(0);
            let ghost u = item.uuid@;
            match self.insert(module.clone(), item, mod_mgr) {
                Ok(()) => (),
                Err(e) => {
                    proof {
                        assert(idx == 0);
                        assert(*self == *old(self));
                    }
                    return Err(e);
                },
            }
            proof {
                assert(pending@ =~= all.skip(idx + 1));
            }
            idx = idx + 1;
        }
        Ok(())
    }

    pub fn get(&self, uuid: &String) -> (r: Result<&LibraryItem, LibraryItemNotAvailableError>)
        requires
            self.wf(),
        ensures
            match r {
                Ok(item) => self.inner@.contains_key(uuid@) && *item == self.inner@[uuid@],
                Err(e) => !self.inner@.contains_key(uuid@) && e.name@ == uuid@,
            },
    {
        match self.inner.get(uuid) {
            Some(item) => Ok(item),
            None => Err(LibraryItemNotAvailableError::new(uuid)),
        }
    }

    /// The named item, for mutation in place. The caller's change to the
    /// returned item is the only change to the library.
    pub fn get_mut(&mut self, uuid: &String) -> (r: Result<
        &mut LibraryItem,
        LibraryItemNotAvailableError,
    >)
        requires
            old(self).wf(),
        ensures
            r is Ok <==> old(self).inner@.contains_key(uuid@),
            r matches Err(e) ==> *final(self) == *old(self) && e.name@ == uuid@,
            r matches Ok(item) ==> *item == old(self).inner@[uuid@] && final(self).inner@
                == old(self).inner@.insert(uuid@, *final(item)),
    {
        match self.inner.index_of(uuid) {
            Some(i) => {
                proof {
                    self.inner.lemma_kv_index(i as int);
                }
                Ok(self.inner.value_at_mut(i))
            },
            None => Err(LibraryItemNotAvailableError::new(uuid)),
        }
    }

    /// The command that launches the item through its active provider.
    pub fn launch_library_item(&self, uuid: &String, mod_mgr: &ModuleManager) -> (r: Result<
        (String, CoreCommands),
        LibraryError,
    >)
        requires
            self.wf(),
            mod_mgr.wf(),
        ensures
            !self.inner@.contains_key(uuid@) ==> (r matches Err(LibraryError::Item(e))
                && e.name@ == uuid@),
            self.inner@.contains_key(uuid@) ==> ({
                let item = self.inner@[uuid@];
                &&& (r is Ok <==> mod_mgr.has(item.active_provider@))
                &&& (r matches Ok((m, cmd)) ==> m@ == item.active_provider@ && (cmd
                    matches CoreCommands::LaunchLibraryItem(u) && u@ == uuid@))
                &&& (!mod_mgr.has(item.active_provider@) ==> (r matches Err(
                    LibraryError::Module(e)) && e.name@ == item.active_provider@))
            }),
    {
        match self.inner.get(uuid) {
            Some(item) => {
                match item.run_default(mod_mgr) {
                    Ok(send) => Ok(send),
                    Err(e) => Err(LibraryError::Module(e)),
                }
            },
            None => Err(LibraryError::Item(LibraryItemNotAvailableError::new(uuid))),
        }
    }

    /// The command that launches the item through the named provider.
    pub fn launch_library_item_from_provider(
        &self,
        uuid: &String,
        mod_mgr: &ModuleManager,
        provider: String,
    ) -> (r: Result<(String, CoreCommands), LibraryError>)
        requires
            self.wf(),
            mod_mgr.wf(),
        ensures
            !self.inner@.contains_key(uuid@) ==> (r matches Err(LibraryError::Item(e))
                && e.name@ == uuid@),
            self.inner@.contains_key(uuid@) ==> ({
                let item = self.inner@[uuid@];
                &&& (r is Ok <==> (item.providers@.contains_key(provider@) && mod_mgr.has(
                    provider@,
                )))
                &&& (r matches Ok((m, cmd)) ==> m@ == provider@ && (cmd
                    matches CoreCommands::LaunchLibraryItem(u) && u@ == uuid@))
                &&& (!item.providers@.contains_key(provider@) ==> (r matches Err(
                    LibraryError::Provider(e)) && e.name@ == provider@))
                &&& (item.providers@.contains_key(provider@) && !mod_mgr.has(provider@) ==> (r
                    matches Err(LibraryError::Module(e)) && e.name@ == provider@))
            }),
    {
        match self.inner.get(uuid) {
            Some(item) => item.run_provider(mod_mgr, provider),
            None => Err(LibraryError::Item(LibraryItemNotAvailableError::new(uuid))),
        }
    }

    /// Make `provider` the active provider of the named item.
    pub fn change_default_provider(&mut self, uuid: &String, provider: String) -> (r: Result<
        (),
        LibraryError,
    >)
        requires
            old(self).wf(),
        ensures
            final(self).wf(),
            !old(self).inner@.contains_key(uuid@) ==> (r matches Err(LibraryError::Item(e))
                && e.name@ == uuid@ && *final(self) == *old(self)),
            old(self).inner@.contains_key(uuid@) ==> ({
                let oi = old(self).inner@[uuid@];
                let ni = final(self).inner@[uuid@];
                &&& (r is Ok <==> oi.providers@.contains_key(provider@))
                &&& (!oi.providers@.contains_key(provider@) ==> (*final(self) == *old(self) && (r
                    matches Err(LibraryError::Provider(e)) && e.name@ == provider@)))
                &&& (r is Ok ==> ni.active_provider@ == provider@ && ni.uuid == oi.uuid && ni.name
                    == oi.name && ni.kind == oi.kind && ni.details == oi.details && ni.providers
                    == oi.providers)
                &&& (r is Ok ==> forall|k: Seq<char>|
                    #![all_triggers]
                    final(self).inner@.contains_key(k) <==> old(self).inner@.contains_key(k))
                &&& (r is Ok ==> forall|k: Seq<char>|
                    #![all_triggers]
                    old(self).inner@.contains_key(k) && k != uuid@ ==> final(self).inner@[k]
                        == old(self).inner@[k])
            }),
    {
        match self.inner.index_of(uuid) {
            Some(i) => {
                let present = self.inner.value_at(i).providers.contains_key(&provider);
                proof {
                    self.inner.lemma_kv_index(i as int);
                }
                if !present {
                    return Err(LibraryError::Provider(ProvModuleNotAvailableError::new(provider)));
                }
                let (key, mut item) = self.inner.remove_at(i);
                let res = item.change_default_provider(provider);
                self.inner.insert(key, item);
                proof {
                    assert(res is Ok);
                    assert(self.inner@ =~= old(self).inner@.insert(
                        uuid@,
                        self.inner@[uuid@],
                    ));
                    assert forall|k: Seq<char>|
                        self.inner@.contains_key(k) implies (#[trigger] self.inner@[k]).wf()
                        && self.inner@[k].uuid@ == k by {
                        if k != uuid@ {
                            assert(self.inner@[k] == old(self).inner@[k]);
                        }
                    }
                }
                Ok(())
            },
            None => Err(LibraryError::Item(LibraryItemNotAvailableError::new(uuid))),
        }
    }

    /// Apply one status update to the named item's named provider.
    pub fn update_item_state(
        &mut self,
        uuid: &String,
        provider: String,
        action: UpdStateAction,
        state: LibraryItemStatus,
    ) -> (r: Result<(), LibraryError>)
        requires
            old(self).wf(),
        ensures
            final(self).wf(),
            !old(self).inner@.contains_key(uuid@) ==> (r matches Err(LibraryError::Item(e))
                && e.name@ == uuid@ && *final(self) == *old(self)),
            old(self).inner@.contains_key(uuid@) ==> ({
                let oi = old(self).inner@[uuid@];
                let ni = final(self).inner@[uuid@];
                &&& (r is Ok <==> oi.providers@.contains_key(provider@))
                &&& (!oi.providers@.contains_key(provider@) ==> (*final(self) == *old(self) && (r
                    matches Err(LibraryError::Provider(e)) && e.name@ == provider@)))
                &&& (r is Ok ==> ni.uuid == oi.uuid && ni.name == oi.name && ni.kind == oi.kind
                    && ni.details == oi.details && ni.active_provider == oi.active_provider)
                &&& (r is Ok ==> forall|k: Seq<char>|
                    #![all_triggers]
                    ni.providers@.contains_key(k) <==> oi.providers@.contains_key(k))
                &&& (r is Ok ==> forall|k: Seq<char>|
                    #![all_triggers]
                    oi.providers@.contains_key(k) && k != provider@ ==> ni.providers@[k]
                        == oi.providers@[k])
                &&& (r is Ok ==> ({
                    let op = oi.providers@[provider@];
                    let np = ni.providers@[provider@];
                    np.title == op.title && np.icon == op.icon && np.module == op.module
                        && np.status@ == apply_status_action(op.status@, action, state)
                }))
                &&& (r is Ok ==> forall|k: Seq<char>|
                    #![all_triggers]
                    final(self).inner@.contains_key(k) <==> old(self).inner@.contains_key(k))
                &&& (r is Ok ==> forall|k: Seq<char>|
                    #![all_triggers]
                    old(self).inner@.contains_key(k) && k != uuid@ ==> final(self).inner@[k]
                        == old(self).inner@[k])
            }),
    {
        match self.inner.index_of(uuid) {
            Some(i) => {
                let present = self.inner.value_at(i).providers.contains_key(&provider);
                proof {
                    self.inner.lemma_kv_index(i as int);
                }
                if !present {
                    return Err(LibraryError::Provider(ProvModuleNotAvailableError::new(provider)));
                }
                let (key, mut item) = self.inner.remove_at(i);
                let res = item.update_state(provider, action, state);
                self.inner.insert(key, item);
                proof {
                    assert(res is Ok);
                    assert(self.inner@ =~= old(self).inner@.insert(
                        uuid@,
                        self.inner@[uuid@],
                    ));
                    assert forall|k: Seq<char>|
                        self.inner@.contains_key(k) implies (#[trigger] self.inner@[k]).wf()
                        && self.inner@[k].uuid@ == k by {
                        if k != uuid@ {
                            assert(self.inner@[k] == old(self).inner@[k]);
                        }
                    }
                }
                Ok(())
            },
            None => Err(LibraryError::Item(LibraryItemNotAvailableError::new(uuid))),
        }
    }

    /// The compact snapshot of the whole library, in item order.
    pub fn to_frontend(&self) -> (r: Vec<LibraryItemFrontend>)
        requires
            self.wf(),
        ensures
            r@.len() == self.inner.kv_seq().len(),
            forall|i: int|
                #![all_triggers]
                0 <= i < r@.len() ==> frontend_matches(self.inner.kv_seq()[i].1, r@[i]),
    {
        let mut out: Vec<LibraryItemFrontend> = Vec::new();
        let n = self.inner.len();
        for i in 0..n
            invariant
                n == self.inner.kv_seq().len(),
                self.wf(),
                out@.len() == i,
                forall|j: int|
                    #![all_triggers]
                    0 <= j < i ==> frontend_matches(self.inner.kv_seq()[j].1, out@[j]),
        {
            proof {
                self.inner.lemma_kv_index(i as int);
            }
            out.push(self.inner.value_at(i).to_frontend());
        }
        out
    }

    /// The full snapshot of the whole library, in item order.
    pub fn to_full(&self) -> (r: Vec<LibraryItemFrontendDetails>)
        requires
            self.wf(),
        ensures
            r@.len() == self.inner.kv_seq().len(),
            forall|i: int|
                #![all_triggers]
                0 <= i < r@.len() ==> frontend_details_matches(self.inner.kv_seq()[i].1, r@[i]),
    {
        let mut out: Vec<LibraryItemFrontendDetails> = Vec::new();
        let n = self.inner.len();
        for i in 0..n
            invariant
                n == self.inner.kv_seq().len(),
                self.wf(),
                out@.len() == i,
                forall|j: int|
                    #![all_triggers]
                    0 <= j < i ==> frontend_details_matches(self.inner.kv_seq()[j].1, out@[j]),
        {
            proof {
                self.inner.lemma_kv_index(i as int);
            }
            out.push(self.inner.value_at(i).to_full());
        }
        out
    }
}


/// Adding a status value that was absent and then removing it is a no-op
/// on the provider's status sequence; adding twice is the same as adding
/// once; removing twice is the same as removing once.
pub proof fn lemma_status_update_round_trip(s: Seq<LibraryItemStatus>, state: LibraryItemStatus)
    requires
        no_dup_status(s),
    ensures
        !s.contains(state) ==> apply_status_action(
            apply_status_action(s, UpdStateAction::Add, state),
            UpdStateAction::Remove,
            state,
        ) == s,
        apply_status_action(
            apply_status_action(s, UpdStateAction::Add, state),
            UpdStateAction::Add,
            state,
        ) == apply_status_action(s, UpdStateAction::Add, state),
        apply_status_action(
            apply_status_action(s, UpdStateAction::Remove, state),
            UpdStateAction::Remove,
            state,
        ) == apply_status_action(s, UpdStateAction::Remove, state),
{
    reveal(Seq::filter);
    lemma_status_without(s, state);
    let added = apply_status_action(s, UpdStateAction::Add, state);
    if !s.contains(state) {
        assert(added == s.push(state));
        assert(s.push(state).drop_last() =~= s);
        assert(s.push(state).drop_last() == s);
        assert(s.push(state).last() == state);
        assert(status_without(s.push(state), state) == status_without(s, state));
        assert(status_without(s, state) == s);
    }
    lemma_push_contains(s, state, state);
    assert(added.contains(state));
    let removed = apply_status_action(s, UpdStateAction::Remove, state);
    assert(!removed.contains(state));
    lemma_status_without(removed, state);
}

/// Round trip at the item level: `update_state(provider, Add, state)`
/// followed by `update_state(provider, Remove, state)` leaves the
/// provider's status sequence exactly as it was, when `state` was not a
/// member before. `mid` and `post` are the states the two calls ensure.
pub proof fn lemma_update_state_round_trip(
    pre: LibraryItem,
    mid: LibraryItem,
    post: LibraryItem,
    provider: Seq<char>,
    state: LibraryItemStatus,
)
    requires
        pre.wf(),
        pre.providers@.contains_key(provider),
        !pre.providers@[provider].status@.contains(state),
        mid.providers@[provider].status@ == apply_status_action(
            pre.providers@[provider].status@,
            UpdStateAction::Add,
            state,
        ),
        post.providers@[provider].status@ == apply_status_action(
            mid.providers@[provider].status@,
            UpdStateAction::Remove,
            state,
        ),
    ensures
        post.providers@[provider].status@ == pre.providers@[provider].status@,
{
    lemma_status_update_round_trip(pre.providers@[provider].status@, state);
}

/// After a successful change of the active provider, the compact snapshot
/// names the new provider as the active one.
pub proof fn lemma_change_active_snapshot(
    item: LibraryItem,
    snap: LibraryItemFrontend,
    provider: Seq<char>,
)
    requires
        item.active_provider@ == provider,
        frontend_matches(item, snap),
    ensures
        snap.active_provider.uuid@ == provider,
{
}

/// An item with providers under both keys yields a compact snapshot that
/// has both providers, each carrying the stored status sequence.
pub proof fn lemma_dual_provider_snapshot(
    item: LibraryItem,
    snap: LibraryItemFrontend,
    a: Seq<char>,
    b: Seq<char>,
)
    requires
        item.wf(),
        item.providers@.contains_key(a),
        item.providers@.contains_key(b),
        frontend_matches(item, snap),
    ensures
        snap.providers@.contains_key(a) && provider_matches(
            a,
            item.providers@[a],
            snap.providers@[a],
        ),
        snap.providers@.contains_key(b) && provider_matches(
            b,
            item.providers@[b],
            snap.providers@[b],
        ),
{
    lemma_snapshot_provider(item, snap, a);
    lemma_snapshot_provider(item, snap, b);
}

/// Each provider key of an item appears in its snapshot's provider map,
/// projected from the stored entry.
pub proof fn lemma_snapshot_provider(item: LibraryItem, snap: LibraryItemFrontend, k: Seq<char>)
    requires
        item.wf(),
        item.providers@.contains_key(k),
        frontend_matches(item, snap),
    ensures
        snap.providers@.contains_key(k),
        provider_matches(k, item.providers@[k], snap.providers@[k]),
{
    item.providers.lemma_contains(k);
    let j = choose|j: int|
        0 <= j < item.providers.kv_seq().len() && item.providers.kv_seq()[j].0@ == k;
    item.providers.lemma_kv_index(j);
    assert(snap.providers.kv_seq()[j].0@ == k);
    snap.providers.lemma_kv_index(j);
}


/// The standing invariants of the library: every item's active provider
/// is one of its providers, every item has at least one provider, and no
/// status set holds two equal values.
pub proof fn lemma_library_invariants(lib: Library, u: Seq<char>)
    requires
        lib.wf(),
        lib.inner@.contains_key(u),
    ensures
        lib.inner@[u].providers@.contains_key(lib.inner@[u].active_provider@),
        exists|k: Seq<char>| lib.inner@[u].providers@.contains_key(k),
        forall|k: Seq<char>|
            lib.inner@[u].providers@.contains_key(k) ==> no_dup_status(
                (#[trigger] lib.inner@[u].providers@[k]).status@,
            ),
{
    assert(lib.inner@[u].providers@.contains_key(lib.inner@[u].active_provider@));
}

} // verus!

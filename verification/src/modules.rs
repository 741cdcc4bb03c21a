//! The decision-layer model of the plugin host: which plugins are loaded,
//! whether their task is still alive, and the information they reported.
//! Dynamic loading itself and the per-plugin channels live at the edge of
//! the system; every decision about a plugin id is taken here.

use crate::errors::{ModuleABIError, ModuleNotAvailableError, ProvModuleNotAvailableError};
use crate::module::ModuleInfo;
use crate::smap::StringMap;
use vstd::prelude::*;
use vstd::string::StringExecFns;

verus! {

/// The plugin interface version this core is built against; a plugin
/// whose reported version differs is refused.
pub fn module_interface_version() -> (r: String)
    ensures
        r@ == "0.0.0"@,
{
    String::from_str("0.0.0")
}

/// A loaded plugin as the core tracks it: its reported information and
/// whether its task is still running.
#[derive(Debug)]
pub struct IModule {
    pub info: ModuleInfo,
    pub alive: bool,
}

/// The registry of loaded plugins, keyed by their stable id.
#[derive(Debug)]
pub struct ModuleManager {
    pub modules: StringMap<IModule>,
}

impl ModuleManager {
    pub open spec fn wf(&self) -> bool {
        self.modules.wf()
    }

    /// The plugin is loaded and its task is alive.
    pub open spec fn has(&self, k: Seq<char>) -> bool {
        self.modules@.contains_key(k) && self.modules@[k].alive
    }

    pub open spec fn info_of(&self, k: Seq<char>) -> ModuleInfo {
        self.modules@[k].info
    }

    pub fn new() -> (r: Self)
        ensures
            r.wf(),
            r.modules@ == Map::<Seq<char>, IModule>::empty(),
    {
        ModuleManager { modules: StringMap::new() }
    }

    /// Admit a plugin whose interface version equals the one the core was
    /// built against; reject any other.
    pub fn register_module(
        &mut self,
        id: String,
        info: ModuleInfo,
        abi_version: String,
        expected: String,
    ) -> (r: Result<(), ModuleABIError>)
        requires
            old(self).wf(),
        ensures
            final(self).wf(),
            r is Ok <==> abi_version@ == expected@,
            r is Ok ==> final(self).modules@ == old(self).modules@.insert(
                id@,
                IModule { info, alive: true },
            ),
            r matches Err(e) ==> *final(self) == *old(self) && e.name@ == id@ && e.version
                == abi_version && e.expected == expected,
    {
        if abi_version == expected {
            self.modules.insert(id, IModule { info, alive: true });
            Ok(())
        } else {
            Err(ModuleABIError::new(id, abi_version, expected))
        }
    }

    pub fn get(&self, id: &String) -> (r: Result<&IModule, ModuleNotAvailableError>)
        requires
            self.wf(),
        ensures
            match r {
                Ok(m) => self.has(id@) && *m == self.modules@[id@],
                Err(e) => !self.has(id@) && e.name@ == id@,
            },
    {
        match self.modules.get(id) {
            Some(m) => {
                if m.alive {
                    Ok(m)
                } else {
                    Err(ModuleNotAvailableError::new(id.clone()))
                }
            },
            None => Err(ModuleNotAvailableError::new(id.clone())),
        }
    }

    /// Lookup for frontend-originating identifiers; only the error type
    /// differs from `get`.
    pub fn get_owned(&self, id: &String) -> (r: Result<&IModule, ProvModuleNotAvailableError>)
        requires
            self.wf(),
        ensures
            match r {
                Ok(m) => self.has(id@) && *m == self.modules@[id@],
                Err(e) => !self.has(id@) && e.name@ == id@,
            },
    {
        match self.modules.get(id) {
            Some(m) => {
                if m.alive {
                    Ok(m)
                } else {
                    Err(ProvModuleNotAvailableError::new(id.clone()))
                }
            },
            None => Err(ProvModuleNotAvailableError::new(id.clone())),
        }
    }

    /// Record that a plugin's task ended; its entry stays, but lookups
    /// refuse it from now on.
    pub fn mark_dead(&mut self, id: &String)
        requires
            old(self).wf(),
        ensures
            final(self).wf(),
            old(self).modules@.contains_key(id@) ==> final(self).modules@
                == old(self).modules@.insert(
                id@,
                IModule { info: old(self).modules@[id@].info, alive: false },
            ),
            !old(self).modules@.contains_key(id@) ==> *final(self) == *old(self),
    {
        match self.modules.index_of(id) {
            Some(i) => {
                let info = self.modules.value_at(i).info.clone();
                proof {
                    self.modules.lemma_kv_index(i as int);
                }
                self.modules.set_value_at(i, IModule { info, alive: false });
                proof {
                    assert(self.modules@ =~= old(self).modules@.insert(
                        id@,
                        IModule { info: old(self).modules@[id@].info, alive: false },
                    ));
                }
            },
            None => (),
        }
    }

    /// Forget every plugin; the edge of the system runs their cleanup.
    pub fn deinit(&mut self)
        ensures
            final(self).wf(),
            final(self).modules@ == Map::<Seq<char>, IModule>::empty(),
    {
        self.modules = StringMap::new();
    }
}

} // verus!

//! The module registry and the composition root: which application
//! modules exist, keyed by name.

use vstd::prelude::*;

verus! {

/// What the registry knows of one application module.
pub struct ModuleInfo {
    pub name: String,
    pub version: String,
    pub enabled: bool,
}

/// Some registered module carries the name `name`.
pub open spec fn registered(ms: Seq<ModuleInfo>, name: Seq<char>) -> bool {
    exists|i: int| 0 <= i < ms.len() && (#[trigger] ms[i]).name@ == name
}

/// A registry of application modules, at most one per name. Registering a
/// name again replaces the earlier entry.
pub struct ModuleRegistry {
    modules: Vec<ModuleInfo>,
}

impl View for ModuleRegistry {
    type V = Seq<ModuleInfo>;

    closed spec fn view(&self) -> Seq<ModuleInfo> {
        self.modules@
    }
}

impl ModuleRegistry {
    /// Module names are pairwise distinct.
    pub open spec fn wf(&self) -> bool {
        forall|i: int, j: int| 0 <= i < j < self@.len() ==> self@[i].name@ != self@[j].name@
    }

    /// An empty registry.
    pub fn new() -> (r: ModuleRegistry)
        ensures
            r.wf(),
            r@ =~= Seq::<ModuleInfo>::empty(),
    {
        ModuleRegistry { modules: Vec::new() }
    }

    /// Register a module under its name, replacing any module already
    /// registered under the same name.
    pub fn register(&mut self, module: ModuleInfo)
        requires
            old(self).wf(),
        ensures
            final(self).wf(),
            if registered(old(self)@, module.name@) {
                exists|i: int|
                    0 <= i < old(self)@.len() && (#[trigger] old(self)@[i]).name@ == module.name@
                        && final(self)@ == old(self)@.update(i, module)
            } else {
                final(self)@ == old(self)@.push(module)
            },
    {
        let n = self.modules.len();
        let mut i: usize = 0;
        while i < n
            invariant
                self == old(self),
                n == self@.len(),
                i <= n,
                forall|k: int| 0 <= k < i ==> (#[trigger] self@[k]).name@ != module.name@,
                self.wf(),
            decreases n - i,
        {
            if self.modules[i].name.eq(&module.name) {
                let ghost old_ms = self@;
                self.modules.set(i, module);
                proof {
                    assert(self@ == old_ms.update(i as int, module));
                    assert(0 <= i < old(self)@.len() && old(self)@[i as int].name@
                        == module.name@ && self@ == old(self)@.update(i as int, module));
                    assert(registered(old(self)@, module.name@));
                    assert forall|a: int, b: int| 0 <= a < b < self@.len() implies self@[a].name@
                        != self@[b].name@ by {
                        if a != i && b != i {
                            assert(self@[a] == old_ms[a] && self@[b] == old_ms[b]);
                        } else if a == i {
                            assert(self@[b] == old_ms[b]);
                            assert(old_ms[b].name@ != old_ms[a].name@);
                        } else {
                            assert(self@[a] == old_ms[a]);
                            assert(old_ms[a].name@ != old_ms[b].name@);
                        }
                    }
                }
                return ;
            }
            i = i + 1;
        }
        self.modules.push(module);
    }

    /// The module registered under `name`, if any.
    pub fn get(&self, name: &String) -> (r: Option<&ModuleInfo>)
        ensures
            match r {
                Some(m) => m.name@ == name@ && exists|i: int|
                    0 <= i < self@.len() && #[trigger] self@[i] == *m,
                None => !registered(self@, name@),
            },
    {
        let n = self.modules.len();
        let mut i: usize = 0;
        while i < n
            invariant
                n == self@.len(),
                i <= n,
                forall|k: int| 0 <= k < i ==> (#[trigger] self@[k]).name@ != name@,
            decreases n - i,
        {
            if self.modules[i].name.eq(name) {
                return Some(&self.modules[i]);
            }
            i = i + 1;
        }
        None
    }

    /// Every registered module, in registration order.
    pub fn list(&self) -> (r: &Vec<ModuleInfo>)
        ensures
            r@ == self@,
    {
        &self.modules
    }

    /// How many modules are registered.
    pub fn count(&self) -> (r: usize)
        ensures
            r == self@.len(),
    {
        self.modules.len()
    }
}

/// The application's composition root: owns the registry the rest of the
/// application is wired from.
pub struct CompositionRoot {
    pub module_registry: ModuleRegistry,
}

impl CompositionRoot {
    /// A composition root over in-memory state: an empty registry to be
    /// filled by the caller.
    pub fn new_with_in_memory() -> (r: CompositionRoot)
        ensures
            r.module_registry.wf(),
            r.module_registry@ =~= Seq::<ModuleInfo>::empty(),
    {
        CompositionRoot { module_registry: ModuleRegistry::new() }
    }

    /// Create a composition root around an existing registry. Never fails;
    /// the `Result` mirrors fallible wiring paths whose failures arise
    /// before this point.
    pub fn with_registry(registry: ModuleRegistry) -> (r: Result<CompositionRoot, String>)
        ensures
            r matches Ok(root) && root.module_registry@ == registry@,
    {
        Ok(CompositionRoot { module_registry: registry })
    }

    /// The module registry.
    pub fn registry(&self) -> (r: &ModuleRegistry)
        ensures
            r == &self.module_registry,
    {
        &self.module_registry
    }
}

} // verus!

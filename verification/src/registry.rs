//! The in-memory catalog of everything loaded extensions registered:
//! tools, commands, flags, shortcuts, providers, message renderers, and
//! event hooks.
//!
//! Within one kind a name is unique: registering it again replaces the
//! earlier artifact in place and reports whose it was. Event hooks are
//! different: many handlers may watch one event, and they keep
//! registration order.

use vstd::prelude::*;
use crate::hostcall::JsonValue;
use crate::text::str_eq;

verus! {

/// One registered artifact.
#[derive(Debug)]
pub struct Registration {
    /// The extension that registered it.
    pub extension_id: String,
    /// The artifact's name within its kind.
    pub name: String,
    /// The artifact's declaration (a tool's schema, a command's
    /// description, and so on).
    pub payload: JsonValue,
}

/// Artifacts of one kind, keyed by name.
#[derive(Debug)]
pub struct RegistrationTable {
    entries: Vec<Registration>,
}

impl RegistrationTable {
    /// The names are pairwise distinct.
    pub closed spec fn wf(&self) -> bool {
        forall|i: int, j: int|
            0 <= i < j < self.entries@.len() ==> self.entries@[i].name@ != self.entries@[j].name@
    }

    /// What is registered, in order.
    pub closed spec fn spec_entries(&self) -> Seq<Registration> {
        self.entries@
    }

    /// An empty table.
    pub fn new() -> (r: Self)
        ensures
            r.wf(),
            r.spec_entries().len() == 0,
    {
        RegistrationTable { entries: Vec::new() }
    }

    /// The index holding a name, if any.
    fn find(&self, name: &str) -> (r: Option<usize>)
        requires
            self.wf(),
        ensures
            match r {
                Some(i) => i < self.spec_entries().len() && self.spec_entries()[i as int].name@
                    == name@,
                None => forall|i: int|
                    0 <= i < self.spec_entries().len() ==> self.spec_entries()[i].name@ != name@,
            },
    {
        let n = self.entries.len();
        let mut i: usize = 0;
        while i < n
            invariant
                n == self.entries@.len(),
                i <= n,
                forall|k: int| 0 <= k < i ==> self.entries@[k].name@ != name@,
            decreases n - i,
        {
            if str_eq(self.entries[i].name.as_str(), name) {
                return Some(i);
            }
            i = i + 1;
        }
        None
    }

    /// Register an artifact. A later registration of the same name wins:
    /// it replaces the earlier one in place, and the earlier owner's id
    /// comes back so the collision can be reported. A new name is appended.
    pub fn register(&mut self, registration: Registration) -> (r: Option<String>)
        requires
            old(self).wf(),
        ensures
            final(self).wf(),
            match r {
                Some(prev) => exists|i: int|
                    0 <= i < old(self).spec_entries().len() && #[trigger] old(
                        self,
                    ).spec_entries()[i].name@ == registration.name@ && old(
                        self,
                    ).spec_entries()[i].extension_id@ == prev@ && final(self).spec_entries()
                        =~= old(self).spec_entries().update(i, registration),
                None => (forall|i: int|
                    0 <= i < old(self).spec_entries().len() ==> #[trigger] old(
                        self,
                    ).spec_entries()[i].name@ != registration.name@) && final(self).spec_entries()
                    =~= old(self).spec_entries().push(registration),
            },
    {
        let ghost reg = registration;
        match self.find(registration.name.as_str()) {
            Some(i) => {
                let prev = self.entries.remove(i);
                self.entries.insert(i, registration);
                proof {
                    assert(self.entries@ =~= old(self).entries@.update(i as int, reg));
                    assert forall|a: int, b: int|
                        0 <= a < b < self.entries@.len() implies self.entries@[a].name@
                        != self.entries@[b].name@ by {
                        assert(old(self).entries@[a].name@ != old(self).entries@[b].name@);
                    }
                }
                Some(prev.extension_id)
            },
            None => {
                self.entries.push(registration);
                proof {
                    assert forall|a: int, b: int|
                        0 <= a < b < self.entries@.len() implies self.entries@[a].name@
                        != self.entries@[b].name@ by {
                        if b < self.entries@.len() - 1 {
                            assert(old(self).entries@[a].name@ != old(self).entries@[b].name@);
                        } else {
                            assert(self.entries@[b] == reg);
                            assert(old(self).entries@[a].name@ != reg.name@);
                        }
                    }
                }
                None
            },
        }
    }

    /// The artifact registered under a name, if any.
    pub fn get(&self, name: &str) -> (r: Option<&Registration>)
        requires
            self.wf(),
        ensures
            match r {
                Some(e) => exists|i: int|
                    0 <= i < self.spec_entries().len() && #[trigger] self.spec_entries()[i] == *e
                        && e.name@ == name@,
                None => forall|i: int|
                    0 <= i < self.spec_entries().len() ==> self.spec_entries()[i].name@ != name@,
            },
    {
        match self.find(name) {
            Some(i) => Some(&self.entries[i]),
            None => None,
        }
    }

    /// Everything registered, in place order.
    pub fn list(&self) -> (r: &Vec<Registration>)
        ensures
            r@ == self.spec_entries(),
    {
        &self.entries
    }

    /// How many artifacts are registered.
    pub fn len(&self) -> (r: usize)
        ensures
            r == self.spec_entries().len(),
    {
        self.entries.len()
    }
}

/// One event hook registration.
#[derive(Debug)]
pub struct HookRegistration {
    /// The extension that installed the hook.
    pub extension_id: String,
    /// The event it watches.
    pub event: String,
    /// The handler's name inside the extension.
    pub handler: String,
}

/// Keeps hooks watching a given event.
pub open spec fn hook_event_pred(event: Seq<char>) -> spec_fn(HookRegistration) -> bool {
    |h: HookRegistration| h.event@ == event
}

/// The catalog of all registered artifacts across loaded extensions.
#[derive(Debug)]
pub struct ExtensionRegistry {
    /// Named tools with their schemas.
    pub tools: RegistrationTable,
    /// Slash commands.
    pub commands: RegistrationTable,
    /// Command-line flags.
    pub flags: RegistrationTable,
    /// Keyboard shortcuts.
    pub shortcuts: RegistrationTable,
    /// Custom providers.
    pub providers: RegistrationTable,
    /// Message renderers.
    pub renderers: RegistrationTable,
    /// Event hooks, in installation order.
    pub hooks: Vec<HookRegistration>,
}

impl ExtensionRegistry {
    /// The registry is well-formed when every table is.
    pub open spec fn wf(&self) -> bool {
        self.tools.wf() && self.commands.wf() && self.flags.wf() && self.shortcuts.wf()
            && self.providers.wf() && self.renderers.wf()
    }

    /// The hooks installed so far, in registration order.
    pub open spec fn spec_hooks(&self) -> Seq<HookRegistration> {
        self.hooks@
    }

    /// An empty catalog.
    pub fn new() -> (r: Self)
        ensures
            r.wf(),
            r.spec_hooks().len() == 0,
            r.tools.spec_entries().len() == 0,
            r.commands.spec_entries().len() == 0,
            r.flags.spec_entries().len() == 0,
            r.shortcuts.spec_entries().len() == 0,
            r.providers.spec_entries().len() == 0,
            r.renderers.spec_entries().len() == 0,
    {
        ExtensionRegistry {
            tools: RegistrationTable::new(),
            commands: RegistrationTable::new(),
            flags: RegistrationTable::new(),
            shortcuts: RegistrationTable::new(),
            providers: RegistrationTable::new(),
            renderers: RegistrationTable::new(),
            hooks: Vec::new(),
        }
    }

    /// Install an event hook; handlers for one event keep the order they
    /// were installed in.
    pub fn register_event_hook(&mut self, hook: HookRegistration)
        ensures
            final(self).spec_hooks() == old(self).spec_hooks().push(hook),
            final(self).tools == old(self).tools,
            final(self).commands == old(self).commands,
            final(self).flags == old(self).flags,
            final(self).shortcuts == old(self).shortcuts,
            final(self).providers == old(self).providers,
            final(self).renderers == old(self).renderers,
    {
        self.hooks.push(hook);
    }

    /// The handlers watching an event, in the order they were installed.
    pub fn list_event_hooks(&self, event: &str) -> (r: Vec<&HookRegistration>)
        ensures
            deref_hooks(r@) =~= self.spec_hooks().filter(hook_event_pred(event@)),
    {
        let n = self.hooks.len();
        let mut r: Vec<&HookRegistration> = Vec::new();
        let mut i: usize = 0;
        proof {
            reveal(Seq::filter);
            assert(self.hooks@.subrange(0, 0) =~= Seq::<HookRegistration>::empty());
        }
        while i < n
            invariant
                n == self.hooks@.len(),
                i <= n,
                deref_hooks(r@) =~= self.hooks@.subrange(0, i as int).filter(
                    hook_event_pred(event@),
                ),
            decreases n - i,
        {
            proof {
                let pre = self.hooks@.subrange(0, i as int);
                let post = self.hooks@.subrange(0, i + 1);
                assert(post.drop_last() =~= pre);
                assert(post.last() == self.hooks@[i as int]);
                reveal(Seq::filter);
            }
            let ghost before = deref_hooks(r@);
            if str_eq(self.hooks[i].event.as_str(), event) {
                r.push(&self.hooks[i]);
                proof {
                    assert(deref_hooks(r@) =~= before.push(self.hooks@[i as int]));
                }
            }
            i = i + 1;
        }
        proof {
            assert(self.hooks@.subrange(0, n as int) =~= self.hooks@);
        }
        r
    }
}

/// The hooks behind a list of references.
pub open spec fn deref_hooks(l: Seq<&HookRegistration>) -> Seq<HookRegistration> {
    Seq::new(l.len(), |i: int| *l[i])
}

} // verus!

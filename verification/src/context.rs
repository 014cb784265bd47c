//! An isolated execution context: a sandbox where modules are registered
//! and resolved.  Modules resolve imports against those registered before
//! them, and a context may be frozen, after which no further registration
//! is possible — asking again fails, while freezing again is a no-op.

use vstd::prelude::*;
use crate::error::RuntimeError;
use crate::instance::Instance;
use crate::module::Module;
use crate::status::{StatusError, StatusErrorKind};

verus! {

/// The module-registration and resolution scope of one instance.
#[derive(Clone)]
pub struct Context {
    pub instance_id: u64,
    pub modules: Vec<Module>,
    pub frozen: bool,
}

impl Context {
    /// Creates an empty, unfrozen context against the instance.
    pub fn new(instance: &Instance) -> (r: Result<Context, StatusError>)
        ensures
            r is Ok,
            r matches Ok(c) ==> {
                &&& c.instance_id == instance.id
                &&& c.modules@.len() == 0
                &&& !c.frozen
            },
    {
        Ok(Context { instance_id: instance.id, modules: Vec::new(), frozen: false })
    }

    /// Creates a context over a fixed set of modules.  A context made this
    /// way can have no further modules registered: it starts frozen.
    pub fn create_with_modules(instance: &Instance, modules: Vec<Module>) -> (r: Result<
        Context,
        StatusError,
    >)
        ensures
            r is Ok,
            r matches Ok(c) ==> {
                &&& c.instance_id == instance.id
                &&& c.modules@ == modules@
                &&& c.frozen
            },
    {
        Ok(Context { instance_id: instance.id, modules, frozen: true })
    }

    /// The isolation domain of the instance this context was created
    /// within.
    pub fn instance(&self) -> (r: u64)
        ensures
            r == self.instance_id,
    {
        self.instance_id
    }

    /// The total number of modules registered.
    pub fn module_count(&self) -> (r: usize)
        ensures
            r == self.modules@.len(),
    {
        self.modules.len()
    }

    /// The module registered at the index; an index past the registration
    /// list is out of bounds.
    pub fn module_at(&self, index: usize) -> (r: Result<&Module, RuntimeError>)
        ensures
            index < self.modules@.len() <==> r is Ok,
            r matches Ok(m) ==> *m == self.modules@[index as int],
            r matches Err(e) ==> e matches RuntimeError::OutOfBounds(i) && i == index,
    {
        if index < self.modules.len() {
            Ok(&self.modules[index])
        } else {
            Err(RuntimeError::OutOfBounds(index))
        }
    }

    /// Registers modules, resolving imports in the order given.  A frozen
    /// context refuses: registration after freezing fails permanently.
    pub fn register_modules(&mut self, modules: Vec<Module>) -> (r: Result<(), RuntimeError>)
        ensures
            old(self).frozen ==> {
                &&& r matches Err(e) && e matches RuntimeError::StatusError(s) && s.kind_spec()
                    == (StatusErrorKind::FailedPrecondition)
                &&& *final(self) == *old(self)
            },
            !old(self).frozen ==> {
                &&& r is Ok
                &&& final(self).modules@ == old(self).modules@ + modules@
                &&& final(self).instance_id == old(self).instance_id
                &&& !final(self).frozen
            },
    {
        if self.frozen {
            return Err(RuntimeError::StatusError(StatusError::from_kind(
                StatusErrorKind::FailedPrecondition,
            )));
        }
        let mut modules = modules;
        let ghost orig = self.modules@;
        let ghost incoming = modules@;
        let n = modules.len();
        let mut i: usize = 0;
        while i < n
            invariant
                0 <= i <= n,
                n == incoming.len(),
                modules@ == incoming.skip(i as int),
                self.modules@ == orig + incoming.subrange(0, i as int),
                self.instance_id == old(self).instance_id,
                !self.frozen,
            decreases n - i,
        {
            let m = modules.remove(0);
            self.modules.push(m);
            proof {
                assert(modules@ =~= incoming.skip(i + 1));
                assert(self.modules@ =~= orig + incoming.subrange(0, i + 1));
            }
            i = i + 1;
        }
        proof {
            assert(incoming.subrange(0, n as int) =~= incoming);
        }
        Ok(())
    }

    /// Freezes the context: no more modules can be registered afterwards.
    /// Freezing an already frozen context changes nothing.
    pub fn freeze(&mut self) -> (r: Result<(), RuntimeError>)
        ensures
            r is Ok,
            final(self).frozen,
            final(self).modules@ == old(self).modules@,
            final(self).instance_id == old(self).instance_id,
    {
        self.frozen = true;
        Ok(())
    }
}

} // verus!

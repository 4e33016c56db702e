//! The shutdown coordinator: cleanup tasks are registered once and run at
//! most once, however many times shutdown is triggered.

use vstd::prelude::*;

verus! {

/// Which cleanup tasks exist and whether shutdown has begun.
pub struct ShutdownCoordinator {
    registered: usize,
    started: bool,
}

impl ShutdownCoordinator {
    pub closed spec fn count(&self) -> nat {
        self.registered as nat
    }

    pub closed spec fn is_started(&self) -> bool {
        self.started
    }

    pub fn new() -> (r: ShutdownCoordinator)
        ensures
            r.count() == 0,
            !r.is_started(),
    {
        ShutdownCoordinator { registered: 0, started: false }
    }

    /// Claims the cleanup tasks: the first call gets every registered task,
    /// every later call gets none.
    pub fn begin_shutdown(&mut self) -> (r: Vec<usize>)
        ensures
            final(self).is_started(),
            final(self).count() == old(self).count(),
            old(self).is_started() ==> r@.len() == 0,
            !old(self).is_started() ==> r@.len() == old(self).count() && forall|i: int|
                0 <= i < r@.len() ==> r@[i] == i,
    {
        let mut out: Vec<usize> = Vec::new();
        if self.started {
            return out;
        }
        self.started = true;
        let mut i: usize = 0;
        while i < self.registered
            invariant
                i <= self.registered,
                out@.len() == i,
                forall|k: int| 0 <= k < i ==> out@[k] == k,
            decreases self.registered - i,
        {
            out.push(i);
            i = i + 1;
        }
        out
    }
}

/// Registers one more cleanup task; returns its number.
pub fn register_cleanup(c: &mut ShutdownCoordinator) -> (r: usize)
    requires
        old(c).count() < usize::MAX,
    ensures
        r == old(c).count(),
        final(c).count() == old(c).count() + 1,
        final(c).is_started() == old(c).is_started(),
{
    let r = c.registered;
    c.registered = r + 1;
    r
}

} // verus!

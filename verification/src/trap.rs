//! The user context saved when a task traps into the kernel.
use vstd::prelude::*;

verus! {

/// User registers saved on a trap: `x0`..`x31`, `sstatus` and `sepc`.
#[derive(Clone, Copy, Debug)]
pub struct TrapContext {
    /// General-purpose registers; `x[10]` (`a0`) carries a system call's
    /// first argument in and its result out.
    pub x: [usize; 32],
    /// Supervisor status register.
    pub sstatus: usize,
    /// Address of the trapping instruction.
    pub sepc: usize,
}

/// `cx` with register `a0` set to `value`: the context that makes the task
/// see `value` as the result of its system call.
pub open spec fn with_a0(cx: TrapContext, value: usize) -> TrapContext {
    choose|c: TrapContext|
        c.x@ == cx.x@.update(10, value) && c.sstatus == cx.sstatus && c.sepc == cx.sepc
}

impl TrapContext {
    /// Sets register `a0` to `value`.
    pub fn set_a0(&mut self, value: usize)
        ensures
            *final(self) == with_a0(*old(self), value),
            final(self).x[10] == value,
    {
        self.x[10] = value;
        proof {
            let c = with_a0(*old(self), value);
            assert(self.x@ == old(self).x@.update(10, value));
            assert(c.x@ == self.x@);
            assert(c.x =~= self.x);
        }
    }
}

} // verus!

//! The saved kernel context of a task that is switched out.
use vstd::prelude::*;

verus! {

/// Callee-saved registers of a switched-out task: return address, stack
/// pointer and `s0`..`s11`.
#[derive(Clone, Copy, Debug)]
pub struct TaskContext {
    /// Return address.
    pub ra: usize,
    /// Kernel stack pointer.
    pub sp: usize,
    /// `s0`..`s11`.
    pub s: [usize; 12],
}

/// Whether every register of `cx` is zero.
pub open spec fn is_zero_cx(cx: TaskContext) -> bool {
    cx.ra == 0 && cx.sp == 0 && forall|i: int| 0 <= i < 12 ==> cx.s[i] == 0
}

/// The context with every register zero.
pub open spec fn zero_cx() -> TaskContext {
    choose|cx: TaskContext| is_zero_cx(cx)
}

impl TaskContext {
    /// A context with every register zero.
    pub fn zero_init() -> (cx: Self)
        ensures
            cx == zero_cx(),
            is_zero_cx(cx),
    {
        let cx = TaskContext { ra: 0, sp: 0, s: [0; 12] };
        proof {
            assert(is_zero_cx(cx));
            let z = zero_cx();
            assert(is_zero_cx(z));
            assert(z.s =~= cx.s);
        }
        cx
    }
}

} // verus!

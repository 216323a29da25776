//! The saved execution context of a task.

use vstd::prelude::*;

verus! {

/// The registers that a task needs back to go on where it left the CPU:
/// return address, stack pointer and the callee-saved registers.
#[derive(Clone, Copy, Debug, PartialEq, Eq)]
pub struct TaskContext {
    /// Where execution resumes.
    pub ra: usize,
    /// The kernel stack pointer.
    pub sp: usize,
    /// The callee-saved registers.
    pub s: [usize; 12],
}

impl TaskContext {
    /// Whether this is the context that `goto_trap_return` lays out.
    pub open spec fn is_trap_return(&self, kstack_ptr: usize, trap_return: usize) -> bool {
        &&& self.ra == trap_return
        &&& self.sp == kstack_ptr
        &&& self.s@ == Seq::new(12, |i: int| 0usize)
    }

    /// A context of zeroes. It serves as the record that the very first
    /// switch saves into, and is never resumed.
    pub fn zero_init() -> (cx: TaskContext)
        ensures
            cx.ra == 0,
            cx.sp == 0,
            cx.s@ == Seq::new(12, |i: int| 0usize),
    {
        let cx = TaskContext { ra: 0, sp: 0, s: [0; 12] };
        assert(cx.s@ =~= Seq::new(12, |i: int| 0usize));
        cx
    }

    /// The context of a task that has not run yet: a switch into it
    /// continues at `trap_return`, on the kernel stack whose top is
    /// `kstack_ptr`.
    pub fn goto_trap_return(kstack_ptr: usize, trap_return: usize) -> (cx: TaskContext)
        ensures
            cx.is_trap_return(kstack_ptr, trap_return),
    {
        let cx = TaskContext { ra: trap_return, sp: kstack_ptr, s: [0; 12] };
        assert(cx.s@ =~= Seq::new(12, |i: int| 0usize));
        cx
    }
}

} // verus!

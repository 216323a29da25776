//! The user-mode state that is saved when a task enters the kernel.

use vstd::prelude::*;

verus! {

/// Bit of the status word that holds the privilege level a trap came from:
/// clear for user mode.
pub const SSTATUS_SPP: usize = 0x100;

/// Index of the stack pointer among the general registers.
pub const REG_SP: usize = 2;

/// The addresses and words of the kernel that every trap frame carries.
#[derive(Clone, Copy, Debug, PartialEq, Eq, Structural)]
pub struct KernelEntry {
    /// The word that names the kernel's address space.
    pub kernel_satp: usize,
    /// The status word at the time the tasks are created.
    pub sstatus: usize,
    /// Address of the kernel's trap handler.
    pub trap_handler: usize,
    /// Address at which a task leaves the kernel for user mode.
    pub trap_return: usize,
}

/// The user-mode register state of a task at the moment control last
/// entered the kernel for it.
#[derive(Clone, Copy, Debug, PartialEq, Eq)]
pub struct TrapContext {
    /// The general registers.
    pub x: [usize; 32],
    /// The status word.
    pub sstatus: usize,
    /// The user program counter.
    pub sepc: usize,
    /// The word that names the kernel's address space.
    pub kernel_satp: usize,
    /// Top of the kernel stack of the task.
    pub kernel_sp: usize,
    /// Address of the kernel's trap handler.
    pub trap_handler: usize,
}

impl TrapContext {
    /// Whether a return through this frame lands in user mode.
    pub open spec fn returns_to_user(&self) -> bool {
        self.sstatus & SSTATUS_SPP == 0
    }

    /// Whether this is the frame that `app_init_context` lays out.
    pub open spec fn is_app_init(
        &self,
        entry: usize,
        sp: usize,
        sstatus: usize,
        kernel_satp: usize,
        kernel_sp: usize,
        trap_handler: usize,
    ) -> bool {
        &&& self.x@ == Seq::new(32, |i: int| 0usize).update(REG_SP as int, sp)
        &&& self.sstatus == sstatus & !SSTATUS_SPP
        &&& self.returns_to_user()
        &&& self.sepc == entry
        &&& self.kernel_satp == kernel_satp
        &&& self.kernel_sp == kernel_sp
        &&& self.trap_handler == trap_handler
    }

    /// Sets the user stack pointer.
    pub fn set_sp(&mut self, sp: usize)
        ensures
            final(self).x@ == old(self).x@.update(REG_SP as int, sp),
            final(self).sstatus == old(self).sstatus,
            final(self).sepc == old(self).sepc,
            final(self).kernel_satp == old(self).kernel_satp,
            final(self).kernel_sp == old(self).kernel_sp,
            final(self).trap_handler == old(self).trap_handler,
    {
        self.x[REG_SP] = sp;
    }

    /// The frame of a program that has not run yet: a return through it
    /// lands in user mode at `entry`, with the stack pointer at `sp` and
    /// every other general register zero. `sstatus` is the status word to
    /// start from.
    pub fn app_init_context(
        entry: usize,
        sp: usize,
        sstatus: usize,
        kernel_satp: usize,
        kernel_sp: usize,
        trap_handler: usize,
    ) -> (cx: TrapContext)
        ensures
            cx.is_app_init(entry, sp, sstatus, kernel_satp, kernel_sp, trap_handler),
    {
        let user_status: usize = sstatus & !SSTATUS_SPP;
        assert(user_status & 0x100usize == 0) by (bit_vector)
            requires
                user_status == sstatus & !0x100usize,
        ;
        let mut cx = TrapContext {
            x: [0; 32],
            sstatus: user_status,
            sepc: entry,
            kernel_satp,
            kernel_sp,
            trap_handler,
        };
        assert(cx.x@ =~= Seq::new(32, |i: int| 0usize));
        cx.set_sp(sp);
        cx
    }
}

} // verus!

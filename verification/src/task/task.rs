//! The task control block.

use vstd::prelude::*;
use crate::config::MAX_SYSCALL_NUM;
use crate::mm::memory_set::MemorySet;
use crate::mm::permission::MapPermission;
use crate::trap::{KernelEntry, TrapContext};
use super::context::TaskContext;

verus! {

/// The scheduling state of a task.
#[derive(Clone, Copy, Debug, PartialEq, Eq, Structural)]
pub enum TaskStatus {
    /// Not created yet.
    UnInit,
    /// Waiting for the CPU.
    Ready,
    /// Holding the CPU.
    Running,
    /// Done for good.
    Exited,
}

impl TaskStatus {
    /// Whether a task may go from `self` to `next` in one step: a created
    /// task becomes ready, a ready task is given the CPU, and a running task
    /// gives it up to wait or to end.
    pub open spec fn step(self, next: TaskStatus) -> bool {
        ||| self == TaskStatus::UnInit && next == TaskStatus::Ready
        ||| self == TaskStatus::Ready && next == TaskStatus::Running
        ||| self == TaskStatus::Running && next == TaskStatus::Ready
        ||| self == TaskStatus::Running && next == TaskStatus::Exited
    }
}

/// One program as the loader leaves it: its address space, where it starts
/// and the stacks it runs on.
pub struct AppImage {
    /// The address space with the program mapped into it.
    pub memory_set: MemorySet,
    /// Address of the program's first instruction.
    pub entry_point: usize,
    /// Top of the program's user stack.
    pub user_sp: usize,
    /// Top of the kernel stack set aside for the program.
    pub kernel_sp: usize,
}

/// What a task control block holds, with the address space as the map from
/// each mapped page to its permission.
pub struct TaskView {
    /// The scheduling state.
    pub status: TaskStatus,
    /// The saved execution context.
    pub context: TaskContext,
    /// The address space: each mapped page with its permission.
    pub mapping: Map<usize, MapPermission>,
    /// The word that names the address space to the hardware.
    pub token: usize,
    /// The saved user-mode state.
    pub trap_frame: TrapContext,
    /// How often the task has made each system call.
    pub syscall_counts: Seq<u32>,
    /// Time in microseconds at which the task first got the CPU; 0 while it
    /// never had it.
    pub started_at: usize,
}

impl TaskView {
    /// A task as it is right after creation: ready, never started, with no
    /// system call counted.
    pub open spec fn fresh(self) -> bool {
        &&& self.status == TaskStatus::Ready
        &&& self.started_at == 0
        &&& self.syscall_counts == Seq::new(MAX_SYSCALL_NUM as nat, |i: int| 0u32)
    }
}

/// The state of one task.
pub struct TaskControlBlock {
    /// The scheduling state.
    pub task_status: TaskStatus,
    /// The saved execution context; it is current while the task does not
    /// hold the CPU.
    pub task_cx: TaskContext,
    /// The task's address space.
    pub memory_set: MemorySet,
    /// The saved user-mode state.
    pub trap_cx: TrapContext,
    /// How often the task has made each system call.
    pub syscall_times: [u32; MAX_SYSCALL_NUM],
    /// Time in microseconds at which the task first got the CPU; 0 while it
    /// never had it.
    pub started_time: usize,
}

impl View for TaskControlBlock {
    type V = TaskView;

    open spec fn view(&self) -> TaskView {
        TaskView {
            status: self.task_status,
            context: self.task_cx,
            mapping: self.memory_set@,
            token: self.memory_set.spec_token(),
            trap_frame: self.trap_cx,
            syscall_counts: self.syscall_times@,
            started_at: self.started_time,
        }
    }
}

impl TaskControlBlock {
    /// The address space is well formed.
    pub open spec fn wf(&self) -> bool {
        self.memory_set.wf()
    }

    /// The block of a program that has not run yet. The first switch into
    /// it leaves the kernel through `kernel.trap_return` and lands in user
    /// mode at the program's entry point, on the program's user stack.
    pub fn new(image: AppImage, kernel: &KernelEntry) -> (tcb: TaskControlBlock)
        requires
            image.memory_set.wf(),
        ensures
            tcb.wf(),
            tcb@.fresh(),
            tcb@.mapping == image.memory_set@,
            tcb@.token == image.memory_set.spec_token(),
            tcb@.context.is_trap_return(image.kernel_sp, kernel.trap_return),
            tcb@.trap_frame.is_app_init(
                image.entry_point,
                image.user_sp,
                kernel.sstatus,
                kernel.kernel_satp,
                image.kernel_sp,
                kernel.trap_handler,
            ),
    {
        let tcb = TaskControlBlock {
            task_status: TaskStatus::Ready,
            task_cx: TaskContext::goto_trap_return(image.kernel_sp, kernel.trap_return),
            memory_set: image.memory_set,
            trap_cx: TrapContext::app_init_context(
                image.entry_point,
                image.user_sp,
                kernel.sstatus,
                kernel.kernel_satp,
                image.kernel_sp,
                kernel.trap_handler,
            ),
            syscall_times: [0; MAX_SYSCALL_NUM],
            started_time: 0,
        };
        assert(tcb.syscall_times@ =~= Seq::new(MAX_SYSCALL_NUM as nat, |i: int| 0u32));
        tcb
    }

    /// The word that names the address space of the task to the hardware.
    pub fn get_user_token(&self) -> (token: usize)
        ensures
            token == self@.token,
    {
        self.memory_set.token()
    }

    /// The saved user-mode state, for the trap handler to read and change.
    pub fn get_trap_cx(&mut self) -> (cx: &mut TrapContext)
        ensures
            *cx == old(self).trap_cx,
            *final(self) == (TaskControlBlock { trap_cx: *final(cx), ..*old(self) }),
    {
        &mut self.trap_cx
    }
}

} // verus!

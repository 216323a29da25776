//! Tasks: their control blocks, the registry that schedules them, and the
//! operations that the trap handler and the system calls go through.
//!
//! The operations take the registry as an argument. A kernel keeps one
//! registry for its whole life and hands it in from behind whatever guards
//! it; the borrow makes sure that no two operations work on it at once.
//!
//! An operation that moves the CPU to another task does not switch itself:
//! it updates the registry and returns the [`Switch`] to carry out.

pub mod context;
pub mod fairness;
pub mod lifecycle;
pub mod manager;
pub mod model;
pub mod switch;
pub mod task;

use vstd::prelude::*;
use crate::config::MAX_SYSCALL_NUM;
use crate::mm::requests::{mmap_granted, mmap_result, munmap_granted, munmap_result};
use crate::trap::TrapContext;

pub use context::TaskContext;
pub use manager::TaskManager;
pub use model::ManagerView;
pub use switch::Switch;
pub use task::{AppImage, TaskControlBlock, TaskStatus, TaskView};

verus! {

/// Maps `len` bytes from address `start` on into the address space of the
/// current task, with the permissions that `port` asks for: bit 0 for read,
/// bit 1 for write, bit 2 for execute. Returns 0 where the request is
/// granted and -1 where it is not; then nothing changes.
pub fn task_mmap(manager: &mut TaskManager, start: usize, len: usize, port: usize) -> (status:
    isize)
    requires
        old(manager).wf(),
        old(manager)@.tasks.len() > 0,
    ensures
        final(manager).wf(),
        status == if mmap_granted(old(manager)@.current_mapping(), start, len, port) {
            0isize
        } else {
            -1isize
        },
        final(manager)@ == old(manager)@.with_current_mapping(
            mmap_result(old(manager)@.current_mapping(), start, len, port),
        ),
{
    manager.mmap(start, len, port)
}

/// Unmaps `len` bytes from address `start` on from the address space of the
/// current task. Returns 0 where the request is granted and -1 where it is
/// not; then nothing changes.
pub fn task_munmap(manager: &mut TaskManager, start: usize, len: usize) -> (status: isize)
    requires
        old(manager).wf(),
        old(manager)@.tasks.len() > 0,
    ensures
        final(manager).wf(),
        status == if munmap_granted(old(manager)@.current_mapping(), start, len) {
            0isize
        } else {
            -1isize
        },
        final(manager)@ == old(manager)@.with_current_mapping(
            munmap_result(old(manager)@.current_mapping(), start, len),
        ),
{
    manager.munmap(start, len)
}

/// Gives the CPU to task 0 at time `now`, as the first task ever, and says
/// what to switch to: from a record that is never resumed into the context
/// of task 0.
pub fn run_first_task(manager: &mut TaskManager, now: usize) -> (switch: Switch)
    requires
        old(manager).wf(),
        old(manager)@.unstarted(),
        old(manager)@.tasks.len() > 0,
    ensures
        final(manager).wf(),
        final(manager)@ == old(manager)@.first_started(now),
        final(manager)@.running(),
        switch == (Switch { save_into: None, load_from: 0 }),
{
    manager.run_first_task(now)
}

/// Gives the CPU, which no task holds, to the next ready task at time
/// `now`, and says what to switch to. Where no task is ready, nothing
/// changes and no switch is named.
fn run_next_task(manager: &mut TaskManager, now: usize) -> (switch: Option<Switch>)
    requires
        old(manager).wf(),
        old(manager)@.idle(),
    ensures
        final(manager).wf(),
        final(manager)@ == old(manager)@.run_next(now),
        match switch {
            Some(switch) => {
                &&& old(manager)@.is_next_ready(switch.load_from as int)
                &&& switch.save_into == Some(old(manager)@.current as usize)
                &&& final(manager)@ == old(manager)@.dispatched(switch.load_from as int, now)
                &&& final(manager)@.running()
            },
            None => old(manager)@.none_ready() && final(manager)@ == old(manager)@,
        },
{
    manager.run_next_task(now)
}

/// Makes the current task, which holds the CPU, wait for it.
fn mark_current_suspended(manager: &mut TaskManager)
    requires
        old(manager).wf(),
        old(manager)@.running(),
    ensures
        final(manager).wf(),
        final(manager)@ == old(manager)@.suspended(),
        final(manager)@.idle(),
{
    manager.mark_current_suspended();
}

/// Ends the current task, which holds the CPU.
fn mark_current_exited(manager: &mut TaskManager)
    requires
        old(manager).wf(),
        old(manager)@.running(),
    ensures
        final(manager).wf(),
        final(manager)@ == old(manager)@.exited(),
        final(manager)@.idle(),
{
    manager.mark_current_exited();
}

/// The current task, which holds the CPU, gives it up to wait, and the next
/// ready task gets it at time `now`. A switch is always named: at the
/// latest, the scan for a ready task comes back to the task that just gave
/// up the CPU.
pub fn suspend_current_and_run_next(manager: &mut TaskManager, now: usize) -> (switch: Option<
    Switch,
>)
    requires
        old(manager).wf(),
        old(manager)@.running(),
    ensures
        final(manager).wf(),
        final(manager)@ == old(manager)@.suspend_and_run_next(now),
        final(manager)@.running(),
        switch matches Some(switch) && {
            &&& old(manager)@.suspended().is_next_ready(switch.load_from as int)
            &&& switch.save_into == Some(old(manager)@.current as usize)
            &&& final(manager)@.current == switch.load_from
        },
{
    mark_current_suspended(manager);
    assert(manager@.tasks[manager@.current].status == TaskStatus::Ready);
    run_next_task(manager, now)
}

/// The current task, which holds the CPU, ends, and the next ready task
/// gets the CPU at time `now`. Where no task is ready, every task has
/// ended: no switch is named, and no task is running.
pub fn exit_current_and_run_next(manager: &mut TaskManager, now: usize) -> (switch: Option<
    Switch,
>)
    requires
        old(manager).wf(),
        old(manager)@.running(),
    ensures
        final(manager).wf(),
        final(manager)@ == old(manager)@.exit_and_run_next(now),
        match switch {
            Some(switch) => {
                &&& old(manager)@.exited().is_next_ready(switch.load_from as int)
                &&& switch.save_into == Some(old(manager)@.current as usize)
                &&& final(manager)@.current == switch.load_from
                &&& final(manager)@.running()
            },
            None => old(manager)@.exited().none_ready() && final(manager)@ == old(
                manager,
            )@.exited(),
        },
{
    mark_current_exited(manager);
    run_next_task(manager, now)
}

/// The word that names the address space of the current task to the
/// hardware.
pub fn current_user_token(manager: &TaskManager) -> (token: usize)
    requires
        manager.wf(),
        manager@.tasks.len() > 0,
    ensures
        token == manager@.tasks[manager@.current].token,
{
    manager.get_current_token()
}

/// The saved user-mode state of the current task, for the trap handler to
/// read and change. Whatever the caller leaves in it is the state of the
/// task from then on; nothing else changes.
pub fn current_trap_cx(manager: &mut TaskManager) -> (cx: &mut TrapContext)
    requires
        old(manager).wf(),
        old(manager)@.tasks.len() > 0,
    ensures
        *cx == old(manager)@.tasks[old(manager)@.current].trap_frame,
        final(manager)@ == old(manager)@.with_current_trap_frame(*final(cx)),
        final(manager).wf(),
{
    manager.get_current_trap_cx()
}

/// The status in which a task finds itself when it asks: running.
pub fn current_task_status() -> (status: TaskStatus)
    ensures
        status == TaskStatus::Running,
{
    TaskStatus::Running
}

/// How often the current task has made each system call.
pub fn current_task_syscall_times(manager: &TaskManager) -> (times: [u32; MAX_SYSCALL_NUM])
    requires
        manager.wf(),
        manager@.tasks.len() > 0,
    ensures
        times@ == manager@.tasks[manager@.current].syscall_counts,
{
    manager.get_task(manager.get_current_id()).syscall_times
}

/// The time in milliseconds that has passed between the first start of the
/// current task and `now`, both given in microseconds.
pub fn current_task_time(manager: &TaskManager, now: usize) -> (elapsed: usize)
    requires
        manager.wf(),
        manager@.tasks.len() > 0,
        manager@.tasks[manager@.current].started_at <= now,
    ensures
        elapsed == (now - manager@.tasks[manager@.current].started_at) / 1000,
{
    let started: usize = manager.get_task(manager.get_current_id()).started_time;
    (now - started) / 1000
}

/// Counts one more call of `syscall_id` for the current task.
pub fn inc_current_task_syscall_num(manager: &mut TaskManager, syscall_id: usize)
    requires
        old(manager).wf(),
        old(manager)@.tasks.len() > 0,
        syscall_id < MAX_SYSCALL_NUM,
        old(manager)@.tasks[old(manager)@.current].syscall_counts[syscall_id as int] < u32::MAX,
    ensures
        final(manager).wf(),
        final(manager)@ == old(manager)@.with_syscall_counted(syscall_id as int),
{
    manager.inc_current_syscall_num(syscall_id);
}

} // verus!

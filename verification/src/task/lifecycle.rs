//! What holds of every step that the scheduler takes: each task moves along
//! its life cycle, at most one task runs, and a start time is written once.

use vstd::prelude::*;
use super::model::ManagerView;
use super::task::TaskStatus;

verus! {

impl ManagerView {
    /// Whether `after` has the tasks of `self`, each in the status it had or
    /// one step further in its life cycle.
    pub open spec fn steps_to(self, after: ManagerView) -> bool {
        &&& after.tasks.len() == self.tasks.len()
        &&& forall|i: int|
            self.has_task(i) ==> {
                let from = (#[trigger] self.tasks[i]).status;
                let to = after.tasks[i].status;
                from == to || from.step(to)
            }
    }

    /// Whether the start times in `after` are those of `self`, but for the
    /// tasks that were given the CPU without a start time: theirs is `now`.
    pub open spec fn stamps_to(self, after: ManagerView, now: usize) -> bool {
        &&& after.tasks.len() == self.tasks.len()
        &&& forall|i: int|
            self.has_task(i) ==> {
                let from = #[trigger] self.tasks[i];
                let to = after.tasks[i];
                to.started_at == if from.status != TaskStatus::Running && to.status
                    == TaskStatus::Running && from.started_at == 0 {
                    now
                } else {
                    from.started_at
                }
            }
    }

    /// Whether `after` has the tasks of `self` with what the scheduler
    /// leaves alone: saved state, address space and counts.
    pub open spec fn keeps_tasks(self, after: ManagerView) -> bool {
        &&& after.tasks.len() == self.tasks.len()
        &&& forall|i: int|
            self.has_task(i) ==> {
                let from = #[trigger] self.tasks[i];
                let to = after.tasks[i];
                &&& to.context == from.context
                &&& to.mapping == from.mapping
                &&& to.token == from.token
                &&& to.trap_frame == from.trap_frame
                &&& to.syscall_counts == from.syscall_counts
            }
    }
}

/// In a consistent registry no two tasks are running, and the one that is
/// running is the current task.
pub proof fn lemma_at_most_one_running(s: ManagerView)
    requires
        s.wf(),
    ensures
        forall|i: int, j: int|
            s.has_task(i) && s.has_task(j) && (#[trigger] s.tasks[i]).status
                == TaskStatus::Running && (#[trigger] s.tasks[j]).status == TaskStatus::Running
                ==> i == j,
        forall|i: int|
            s.has_task(i) && (#[trigger] s.tasks[i]).status == TaskStatus::Running ==> i
                == s.current,
        s.running() || s.idle(),
{
}

/// The start of the first task takes task 0 from ready to running and
/// leaves every other task as it is. Task 0 is then the one running task,
/// and `now` is its start time.
pub proof fn lemma_first_start(s: ManagerView, now: usize)
    requires
        s.wf(),
        s.unstarted(),
        s.tasks.len() > 0,
    ensures
        s.first_started(now).wf(),
        s.first_started(now).running(),
        s.steps_to(s.first_started(now)),
        s.stamps_to(s.first_started(now), now),
        s.keeps_tasks(s.first_started(now)),
        s.first_started(now).tasks[0].started_at == now,
{
}

/// A suspension takes the current task from running to ready and leaves
/// every other task, and every start time, as it is. No task is running
/// then.
pub proof fn lemma_suspend(s: ManagerView)
    requires
        s.wf(),
        s.running(),
    ensures
        s.suspended().wf(),
        s.suspended().idle(),
        s.suspended().tasks[s.current].status == TaskStatus::Ready,
        s.steps_to(s.suspended()),
        s.keeps_tasks(s.suspended()),
        forall|i: int|
            s.has_task(i) ==> (#[trigger] s.suspended().tasks[i]).started_at
                == s.tasks[i].started_at,
        s.suspended().current == s.current,
{
}

/// An exit takes the current task from running to exited and leaves every
/// other task, and every start time, as it is. No task is running then.
pub proof fn lemma_exit(s: ManagerView)
    requires
        s.wf(),
        s.running(),
    ensures
        s.exited().wf(),
        s.exited().idle(),
        s.exited().tasks[s.current].status == TaskStatus::Exited,
        s.steps_to(s.exited()),
        s.keeps_tasks(s.exited()),
        forall|i: int|
            s.has_task(i) ==> (#[trigger] s.exited().tasks[i]).started_at == s.tasks[i].started_at,
        s.exited().current == s.current,
{
}

/// Where no task is running, the choice of the next task takes that task
/// from ready to running, makes it the current task, gives it `now` as its
/// start time if it had none, and leaves every other task as it is. Where
/// no task is ready, nothing changes.
pub proof fn lemma_run_next(s: ManagerView, now: usize)
    requires
        s.wf(),
        s.idle(),
    ensures
        s.run_next(now).wf(),
        s.steps_to(s.run_next(now)),
        s.stamps_to(s.run_next(now), now),
        s.keeps_tasks(s.run_next(now)),
        match s.next_ready() {
            Some(next) => s.run_next(now).running() && s.run_next(now).current == next
                && s.is_next_ready(next),
            None => s.run_next(now) == s && s.none_ready(),
        },
{
    s.lemma_next_ready();
}

/// A task that has ended stays so, whatever steps follow.
pub proof fn lemma_exited_is_final(s: ManagerView, after: ManagerView, id: int)
    requires
        s.steps_to(after),
        s.has_task(id),
        s.tasks[id].status == TaskStatus::Exited,
    ensures
        after.tasks[id].status == TaskStatus::Exited,
{
}

/// A start time that has been written stays as it is, whatever steps
/// follow.
pub proof fn lemma_start_time_is_final(s: ManagerView, after: ManagerView, now: usize, id: int)
    requires
        s.stamps_to(after, now),
        s.has_task(id),
        s.tasks[id].started_at != 0,
    ensures
        after.tasks[id].started_at == s.tasks[id].started_at,
{
}

/// A task that gives up the CPU is ready before any task runs again, even
/// where it is itself the next to run: from running it goes to ready, and
/// from ready the chosen task goes to running.
pub proof fn lemma_yield_passes_through_ready(s: ManagerView, now: usize)
    requires
        s.wf(),
        s.running(),
    ensures
        s.suspended().tasks[s.current].status == TaskStatus::Ready,
        s.suspended().idle(),
        s.steps_to(s.suspended()),
        s.suspended().steps_to(s.suspend_and_run_next(now)),
        s.suspend_and_run_next(now).wf(),
        s.suspend_and_run_next(now).running(),
{
    lemma_suspend(s);
    lemma_run_next(s.suspended(), now);
    assert(s.suspended().tasks[s.current].status == TaskStatus::Ready);
}

/// After an exit and the choice of the next task, either one task is
/// running, or every task that was ready has run to its end: none is ready
/// or running.
pub proof fn lemma_exit_and_run_next(s: ManagerView, now: usize)
    requires
        s.wf(),
        s.running(),
    ensures
        s.steps_to(s.exited()),
        s.exited().steps_to(s.exit_and_run_next(now)),
        s.exit_and_run_next(now).wf(),
        s.exit_and_run_next(now).running() || (s.exit_and_run_next(now).idle()
            && s.exit_and_run_next(now).none_ready()),
{
    lemma_exit(s);
    lemma_run_next(s.exited(), now);
}

} // verus!

//! The registry of tasks as a mathematical value, and the steps that the
//! scheduler takes on it.

use vstd::prelude::*;
use crate::config::MAX_SYSCALL_NUM;
use crate::mm::permission::MapPermission;
use crate::trap::TrapContext;
use super::context::TaskContext;
use super::task::{TaskStatus, TaskView};

verus! {

/// The registry: the tasks in the order of their ids, and the id of the
/// current task.
pub struct ManagerView {
    /// The tasks; the index of a task is its id.
    pub tasks: Seq<TaskView>,
    /// Id of the current task.
    pub current: int,
}

impl ManagerView {
    /// Whether `id` is the id of a task.
    pub open spec fn has_task(self, id: int) -> bool {
        0 <= id < self.tasks.len()
    }

    /// The current task exists unless there is no task at all, and no task
    /// but the current one is running.
    pub open spec fn wf(self) -> bool {
        &&& self.has_task(self.current) || (self.tasks.len() == 0 && self.current == 0)
        &&& forall|i: int|
            self.has_task(i) && (#[trigger] self.tasks[i]).status == TaskStatus::Running ==> i
                == self.current
        &&& forall|i: int|
            self.has_task(i) ==> (#[trigger] self.tasks[i]).syscall_counts.len()
                == MAX_SYSCALL_NUM
    }

    /// The registry as it is before the first task is started: task 0 is
    /// the current one, and every task is ready and has no start time.
    pub open spec fn unstarted(self) -> bool {
        &&& self.current == 0
        &&& forall|i: int|
            self.has_task(i) ==> (#[trigger] self.tasks[i]).status == TaskStatus::Ready
                && self.tasks[i].started_at == 0
    }

    /// Whether the current task holds the CPU.
    pub open spec fn running(self) -> bool {
        self.has_task(self.current) && self.tasks[self.current].status == TaskStatus::Running
    }

    /// Whether no task holds the CPU.
    pub open spec fn idle(self) -> bool {
        forall|i: int| self.has_task(i) ==> (#[trigger] self.tasks[i]).status != TaskStatus::Running
    }

    /// Whether no task waits for the CPU.
    pub open spec fn none_ready(self) -> bool {
        forall|i: int| self.has_task(i) ==> (#[trigger] self.tasks[i]).status != TaskStatus::Ready
    }

    /// The registry with the status of task `id` set to `status`.
    pub open spec fn set_status(self, id: int, status: TaskStatus) -> ManagerView {
        ManagerView { tasks: self.tasks.update(id, TaskView { status, ..self.tasks[id] }), ..self }
    }

    /// The registry after the current task gave up the CPU to wait.
    pub open spec fn suspended(self) -> ManagerView {
        self.set_status(self.current, TaskStatus::Ready)
    }

    /// The registry after the current task ended.
    pub open spec fn exited(self) -> ManagerView {
        self.set_status(self.current, TaskStatus::Exited)
    }

    /// How many steps task `id` lies after the current task on the ring of
    /// ids: 1 for the task that follows it, and the number of tasks for the
    /// current task itself.
    pub open spec fn ring_distance(self, id: int) -> int {
        if id > self.current {
            id - self.current
        } else {
            id + self.tasks.len() - self.current
        }
    }

    /// Whether `id` is the ready task that comes first after the current
    /// task on the ring of ids.
    pub open spec fn is_next_ready(self, id: int) -> bool {
        &&& self.has_task(id)
        &&& self.tasks[id].status == TaskStatus::Ready
        &&& forall|j: int|
            self.has_task(j) && (#[trigger] self.tasks[j]).status == TaskStatus::Ready
                ==> self.ring_distance(id) <= self.ring_distance(j)
    }

    /// The ready task that comes first after the current task on the ring
    /// of ids, if any task is ready.
    pub open spec fn next_ready(self) -> Option<int> {
        if exists|id: int| self.is_next_ready(id) {
            Some(choose|id: int| self.is_next_ready(id))
        } else {
            None
        }
    }

    /// The registry after task `next` was given the CPU at time `now`. The
    /// time is kept as the task's start time if the task had none.
    pub open spec fn dispatched(self, next: int, now: usize) -> ManagerView {
        let task = self.tasks[next];
        ManagerView {
            tasks: self.tasks.update(
                next,
                TaskView {
                    status: TaskStatus::Running,
                    started_at: if task.started_at == 0 {
                        now
                    } else {
                        task.started_at
                    },
                    ..task
                },
            ),
            current: next,
        }
    }

    /// The registry after task 0 was given the CPU at time `now` as the
    /// first task ever.
    pub open spec fn first_started(self, now: usize) -> ManagerView {
        ManagerView {
            tasks: self.tasks.update(
                0,
                TaskView { status: TaskStatus::Running, started_at: now, ..self.tasks[0] },
            ),
            ..self
        }
    }

    /// The registry after the next ready task, if there is one, was given
    /// the CPU at time `now`.
    pub open spec fn run_next(self, now: usize) -> ManagerView {
        match self.next_ready() {
            Some(next) => self.dispatched(next, now),
            None => self,
        }
    }

    /// The registry after the current task gave up the CPU to wait and the
    /// next ready task got it at time `now`.
    pub open spec fn suspend_and_run_next(self, now: usize) -> ManagerView {
        self.suspended().run_next(now)
    }

    /// The registry after the current task ended and the next ready task,
    /// if there is one, got the CPU at time `now`.
    pub open spec fn exit_and_run_next(self, now: usize) -> ManagerView {
        self.exited().run_next(now)
    }

    /// The pages of the current task and their permissions.
    pub open spec fn current_mapping(self) -> Map<usize, MapPermission> {
        self.tasks[self.current].mapping
    }

    /// The registry with `mapping` as the address space of the current
    /// task.
    pub open spec fn with_current_mapping(self, mapping: Map<usize, MapPermission>) -> ManagerView {
        ManagerView {
            tasks: self.tasks.update(
                self.current,
                TaskView { mapping, ..self.tasks[self.current] },
            ),
            ..self
        }
    }

    /// The registry with `trap_frame` as the saved user-mode state of the
    /// current task.
    pub open spec fn with_current_trap_frame(self, trap_frame: TrapContext) -> ManagerView {
        ManagerView {
            tasks: self.tasks.update(
                self.current,
                TaskView { trap_frame, ..self.tasks[self.current] },
            ),
            ..self
        }
    }

    /// The registry with `context` as the saved context of task `id`.
    pub open spec fn with_context(self, id: int, context: TaskContext) -> ManagerView {
        ManagerView {
            tasks: self.tasks.update(id, TaskView { context, ..self.tasks[id] }),
            ..self
        }
    }

    /// The registry with one more call of `syscall_id` counted for the
    /// current task.
    pub open spec fn with_syscall_counted(self, syscall_id: int) -> ManagerView {
        let task = self.tasks[self.current];
        ManagerView {
            tasks: self.tasks.update(
                self.current,
                TaskView {
                    syscall_counts: task.syscall_counts.update(
                        syscall_id,
                        (task.syscall_counts[syscall_id] + 1) as u32,
                    ),
                    ..task
                },
            ),
            ..self
        }
    }

    /// At most one task is the next ready one.
    pub proof fn lemma_next_ready_unique(self, a: int, b: int)
        requires
            self.wf(),
            self.is_next_ready(a),
            self.is_next_ready(b),
        ensures
            a == b,
    {
        assert(self.tasks[a].status == TaskStatus::Ready);
        assert(self.tasks[b].status == TaskStatus::Ready);
    }

    /// `next_ready` is the one task that `is_next_ready` holds of, and it
    /// is none exactly if no task is ready.
    pub proof fn lemma_next_ready(self)
        requires
            self.wf(),
        ensures
            match self.next_ready() {
                Some(id) => self.is_next_ready(id) && forall|other: int|
                    self.is_next_ready(other) ==> other == id,
                None => self.none_ready(),
            },
    {
        match self.next_ready() {
            Some(id) => {
                assert forall|other: int| self.is_next_ready(other) implies other == id by {
                    self.lemma_next_ready_unique(other, id);
                }
            },
            None => {
                if !self.none_ready() {
                    let r = choose|i: int|
                        self.has_task(i) && (#[trigger] self.tasks[i]).status == TaskStatus::Ready;
                    self.lemma_nearest_ready(r, self.ring_distance(r));
                }
            },
        }
    }

    /// Where a task within `bound` steps after the current one is ready,
    /// some ready task comes first.
    proof fn lemma_nearest_ready(self, r: int, bound: int)
        requires
            self.wf(),
            self.has_task(r),
            self.tasks[r].status == TaskStatus::Ready,
            self.ring_distance(r) <= bound,
        ensures
            exists|id: int| self.is_next_ready(id),
        decreases bound,
    {
        if self.is_next_ready(r) {
        } else {
            let j = choose|j: int|
                self.has_task(j) && (#[trigger] self.tasks[j]).status == TaskStatus::Ready
                    && self.ring_distance(j) < self.ring_distance(r);
            self.lemma_nearest_ready(j, bound - 1);
        }
    }
}

} // verus!

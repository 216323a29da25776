//! The registry of all tasks and the scheduler that works on it.

use vstd::prelude::*;
use crate::mm::address::{VirtAddr, VirtPageNum};
use crate::mm::memory_set::{range_mapped, range_unmapped, unmap_range, MemorySet};
use crate::mm::requests::{mmap_granted, mmap_result, munmap_granted, munmap_result};
use crate::mm::permission::MapPermission;
use crate::config::{MAX_SYSCALL_NUM, PAGE_SIZE};
use crate::trap::{KernelEntry, TrapContext};
use super::context::TaskContext;
use super::model::ManagerView;
use super::switch::Switch;
use super::task::{AppImage, TaskControlBlock, TaskStatus};

verus! {

/// The task manager: every task of the system, in the order of their ids,
/// and the id of the current task.
pub struct TaskManager {
    /// Total number of tasks.
    num_app: usize,
    /// The tasks; the index of a task is its id.
    tasks: Vec<TaskControlBlock>,
    /// Id of the current task.
    current_task: usize,
}

impl View for TaskManager {
    type V = ManagerView;

    closed spec fn view(&self) -> ManagerView {
        ManagerView {
            tasks: Seq::new(self.tasks@.len(), |i: int| self.tasks@[i]@),
            current: self.current_task as int,
        }
    }
}

impl TaskManager {
    /// The count of tasks is kept, and every address space is well formed.
    pub closed spec fn inv(&self) -> bool {
        &&& self.num_app == self.tasks@.len()
        &&& forall|i: int| 0 <= i < self.tasks@.len() ==> (#[trigger] self.tasks@[i]).wf()
    }

    /// The registry is consistent: see `inv` and `ManagerView::wf`.
    pub open spec fn wf(&self) -> bool {
        self.inv() && self@.wf()
    }

    /// The registry of the programs `images`, one fresh task for each in
    /// the order given, with task 0 as the current one.
    pub fn new(images: Vec<AppImage>, kernel: &KernelEntry) -> (manager: TaskManager)
        requires
            forall|i: int| 0 <= i < images@.len() ==> (#[trigger] images@[i]).memory_set.wf(),
        ensures
            manager.wf(),
            manager@.unstarted(),
            manager@.tasks.len() == images@.len(),
            forall|i: int|
                0 <= i < images@.len() ==> {
                    let task = #[trigger] manager@.tasks[i];
                    let image = images@[i];
                    &&& task.fresh()
                    &&& task.mapping == image.memory_set@
                    &&& task.token == image.memory_set.spec_token()
                    &&& task.context.is_trap_return(image.kernel_sp, kernel.trap_return)
                    &&& task.trap_frame.is_app_init(
                        image.entry_point,
                        image.user_sp,
                        kernel.sstatus,
                        kernel.kernel_satp,
                        image.kernel_sp,
                        kernel.trap_handler,
                    )
                },
    {
        let ghost all = images@;
        let num_app: usize = images.len();
        let mut tasks: Vec<TaskControlBlock> = Vec::new();
        for image in it: images
            invariant
                it.seq() == all,
                forall|i: int| 0 <= i < all.len() ==> (#[trigger] all[i]).memory_set.wf(),
                tasks@.len() == it.index(),
                forall|i: int|
                    0 <= i < tasks@.len() ==> {
                        let task = (#[trigger] tasks@[i])@;
                        let image = all[i];
                        &&& tasks@[i].wf()
                        &&& task.fresh()
                        &&& task.mapping == image.memory_set@
                        &&& task.token == image.memory_set.spec_token()
                        &&& task.context.is_trap_return(image.kernel_sp, kernel.trap_return)
                        &&& task.trap_frame.is_app_init(
                            image.entry_point,
                            image.user_sp,
                            kernel.sstatus,
                            kernel.kernel_satp,
                            image.kernel_sp,
                            kernel.trap_handler,
                        )
                    },
        {
            tasks.push(TaskControlBlock::new(image, kernel));
        }
        let manager = TaskManager { num_app, tasks, current_task: 0 };
        assert forall|i: int| 0 <= i < all.len() implies (#[trigger] manager@.tasks[i])
            == manager.tasks@[i]@ by {}
        manager
    }

    /// Gives the CPU to task 0 at time `now`, as the first task ever, and
    /// says what to switch to: from a record that is never resumed into the
    /// context of task 0.
    pub fn run_first_task(&mut self, now: usize) -> (switch: Switch)
        requires
            old(self).wf(),
            old(self)@.unstarted(),
            old(self)@.tasks.len() > 0,
        ensures
            final(self).wf(),
            final(self)@ == old(self)@.first_started(now),
            final(self)@.running(),
            switch == (Switch { save_into: None, load_from: 0 }),
    {
        self.tasks[0].task_status = TaskStatus::Running;
        self.tasks[0].started_time = now;
        proof {
            assert(self@.tasks =~= old(self)@.first_started(now).tasks);
            self.lemma_same_address_spaces(*old(self));
        }
        Switch { save_into: None, load_from: 0 }
    }

    /// Makes the current task, which holds the CPU, wait for it.
    pub fn mark_current_suspended(&mut self)
        requires
            old(self).wf(),
            old(self)@.running(),
        ensures
            final(self).wf(),
            final(self)@ == old(self)@.suspended(),
            final(self)@.idle(),
    {
        let current: usize = self.current_task;
        self.tasks[current].task_status = TaskStatus::Ready;
        proof {
            assert(self@.tasks =~= old(self)@.suspended().tasks);
            self.lemma_same_address_spaces(*old(self));
        }
    }

    /// Ends the current task, which holds the CPU.
    pub fn mark_current_exited(&mut self)
        requires
            old(self).wf(),
            old(self)@.running(),
        ensures
            final(self).wf(),
            final(self)@ == old(self)@.exited(),
            final(self)@.idle(),
    {
        let current: usize = self.current_task;
        self.tasks[current].task_status = TaskStatus::Exited;
        proof {
            assert(self@.tasks =~= old(self)@.exited().tasks);
            self.lemma_same_address_spaces(*old(self));
        }
    }

    /// The task to run next: the first ready task on the ring of ids, in a
    /// scan that starts after the current task and ends with it.
    pub fn find_next_task(&self) -> (next: Option<usize>)
        requires
            self.wf(),
        ensures
            match next {
                Some(id) => self@.is_next_ready(id as int),
                None => self@.none_ready(),
            },
            self@.next_ready() == match next {
                Some(id) => Some(id as int),
                None => None,
            },
    {
        let current: usize = self.current_task;
        let n: usize = self.num_app;
        let mut passed: usize = 0;
        while passed < n
            invariant
                self.wf(),
                n == self.num_app,
                current == self.current_task,
                passed <= n,
                forall|j: int|
                    self@.has_task(j) && self@.ring_distance(j) <= passed ==> (
                    #[trigger] self@.tasks[j]).status != TaskStatus::Ready,
            decreases n - passed,
        {
            // The id that lies one place after those passed.
            let id: usize = if passed + 1 < n - current {
                current + passed + 1
            } else {
                passed + 1 - (n - current)
            };
            assert(self@.tasks[id as int] == self.tasks@[id as int]@);
            assert(self@.ring_distance(id as int) == passed + 1);
            if self.tasks[id].task_status == TaskStatus::Ready {
                proof {
                    self@.lemma_next_ready();
                }
                return Some(id);
            }
            assert forall|j: int|
                self@.has_task(j) && self@.ring_distance(j) <= passed + 1 implies (
            #[trigger] self@.tasks[j]).status != TaskStatus::Ready by {
                if self@.ring_distance(j) == passed + 1 {
                    assert(j == id);
                }
            }
            passed += 1;
        }
        proof {
            self@.lemma_next_ready();
        }
        None
    }

    /// Gives the CPU, which no task holds, to the next ready task at time
    /// `now` and says what to switch to: from the context of the task that
    /// was current into that of the new one. Where no task is ready there
    /// is nothing left to run: nothing changes and no switch is named.
    pub fn run_next_task(&mut self, now: usize) -> (switch: Option<Switch>)
        requires
            old(self).wf(),
            old(self)@.idle(),
        ensures
            final(self).wf(),
            final(self)@ == old(self)@.run_next(now),
            match switch {
                Some(switch) => {
                    &&& old(self)@.is_next_ready(switch.load_from as int)
                    &&& switch.save_into == Some(old(self)@.current as usize)
                    &&& final(self)@ == old(self)@.dispatched(switch.load_from as int, now)
                    &&& final(self)@.running()
                },
                None => old(self)@.none_ready() && final(self)@ == old(self)@,
            },
    {
        match self.find_next_task() {
            Some(next) => {
                let current: usize = self.current_task;
                self.tasks[next].task_status = TaskStatus::Running;
                if self.tasks[next].started_time == 0 {
                    self.tasks[next].started_time = now;
                }
                self.current_task = next;
                proof {
                    assert(self@.tasks =~= old(self)@.dispatched(next as int, now).tasks);
                    self.lemma_same_address_spaces(*old(self));
                }
                Some(Switch { save_into: Some(current), load_from: next })
            },
            None => None,
        }
    }

    /// Maps `len` bytes from address `start` on into the address space of
    /// the current task, with the permissions that `port` asks for. Returns
    /// 0 where the request is granted and -1 where it is not; then nothing
    /// changes.
    pub fn mmap(&mut self, start: usize, len: usize, port: usize) -> (status: isize)
        requires
            old(self).wf(),
            old(self)@.tasks.len() > 0,
        ensures
            final(self).wf(),
            status == if mmap_granted(old(self)@.current_mapping(), start, len, port) {
                0isize
            } else {
                -1isize
            },
            final(self)@ == old(self)@.with_current_mapping(
                mmap_result(old(self)@.current_mapping(), start, len, port),
            ),
    {
        proof {
            self.lemma_unchanged(*old(self));
        }
        if start % PAGE_SIZE != 0 {
            return -1;
        }
        let permission = match MapPermission::from_port(port) {
            Some(permission) => permission,
            None => {
                return -1;
            },
        };
        let end: usize = match start.checked_add(len) {
            Some(end) => end,
            None => {
                return -1;
            },
        };
        let start_vpn = VirtAddr(start).floor();
        let end_vpn = VirtAddr(end).ceil();
        let cur_id: usize = self.current_task;

        // No page of the range may be mapped already.
        if any_mapped(&self.tasks[cur_id].memory_set, start_vpn, end_vpn) {
            return -1;
        }
        self.tasks[cur_id].memory_set.insert_framed_area(start_vpn, end_vpn, permission);
        proof {
            self.lemma_remapped(*old(self));
        }
        0
    }

    /// Unmaps `len` bytes from address `start` on from the address space of
    /// the current task. Returns 0 where the request is granted and -1
    /// where it is not; then nothing changes.
    pub fn munmap(&mut self, start: usize, len: usize) -> (status: isize)
        requires
            old(self).wf(),
            old(self)@.tasks.len() > 0,
        ensures
            final(self).wf(),
            status == if munmap_granted(old(self)@.current_mapping(), start, len) {
                0isize
            } else {
                -1isize
            },
            final(self)@ == old(self)@.with_current_mapping(
                munmap_result(old(self)@.current_mapping(), start, len),
            ),
    {
        proof {
            self.lemma_unchanged(*old(self));
        }
        if start % PAGE_SIZE != 0 {
            return -1;
        }
        let end: usize = match start.checked_add(len) {
            Some(end) => end,
            None => {
                return -1;
            },
        };
        let start_vpn = VirtAddr(start).floor();
        let end_vpn = VirtAddr(end).ceil();
        let cur_id: usize = self.current_task;

        // Every page of the range must be mapped.
        if any_unmapped(&self.tasks[cur_id].memory_set, start_vpn, end_vpn) {
            return -1;
        }
        unmap_pages(&mut self.tasks[cur_id].memory_set, start_vpn, end_vpn);
        proof {
            self.lemma_remapped(*old(self));
        }
        // None of them may be left.
        if any_mapped(&self.tasks[cur_id].memory_set, start_vpn, end_vpn) {
            return -1;
        }
        0
    }

    /// The word that names the address space of the current task to the
    /// hardware.
    pub fn get_current_token(&self) -> (token: usize)
        requires
            self.wf(),
            self@.tasks.len() > 0,
        ensures
            token == self@.tasks[self@.current].token,
    {
        assert(self@.tasks[self@.current] == self.tasks@[self.current_task as int]@);
        self.tasks[self.current_task].get_user_token()
    }

    /// The saved user-mode state of the current task, for the trap handler
    /// to read and change. Whatever the caller leaves in it is the state of
    /// the task from then on; nothing else changes.
    pub fn get_current_trap_cx(&mut self) -> (cx: &mut TrapContext)
        requires
            old(self).wf(),
            old(self)@.tasks.len() > 0,
        ensures
            *cx == old(self)@.tasks[old(self)@.current].trap_frame,
            final(self)@ == old(self)@.with_current_trap_frame(*final(cx)),
            final(self).wf(),
    {
        let current: usize = self.current_task;
        proof {
            let before = *self;
            assert forall|after: TaskManager, cx: TrapContext|
                #![trigger after@, before@.with_current_trap_frame(cx)]
                after.current_task == before.current_task && after.tasks@
                    == before.tasks@.update(
                    current as int,
                    TaskControlBlock { trap_cx: cx, ..before.tasks@[current as int] },
                ) implies after@ == before@.with_current_trap_frame(cx) && after@.wf() by {
                assert(after@.tasks =~= before@.with_current_trap_frame(cx).tasks);
            }
            assert forall|after: TaskManager|
                after.num_app == before.num_app && after.tasks@.len() == before.tasks@.len() && (
                forall|i: int|
                    0 <= i < after.tasks@.len() ==> (#[trigger] after.tasks@[i]).memory_set
                        == before.tasks@[i].memory_set) implies #[trigger] after.inv() by {
                after.lemma_same_address_spaces(before);
            }
        }
        self.tasks[current].get_trap_cx()
    }

    /// Task `id`, to read.
    pub fn get_task(&self, id: usize) -> (task: &TaskControlBlock)
        requires
            self.wf(),
            self@.has_task(id as int),
        ensures
            task@ == self@.tasks[id as int],
            task.wf(),
    {
        &self.tasks[id]
    }

    /// The context record of task `id`, for the switch to save into.
    /// Whatever the caller leaves in it is the saved context of the task
    /// from then on; nothing else changes.
    pub fn get_task_cx_mut(&mut self, id: usize) -> (cx: &mut TaskContext)
        requires
            old(self).wf(),
            old(self)@.has_task(id as int),
        ensures
            *cx == old(self)@.tasks[id as int].context,
            final(self)@ == old(self)@.with_context(id as int, *final(cx)),
            final(self).wf(),
    {
        proof {
            let before = *self;
            assert forall|after: TaskManager, cx: TaskContext|
                #![trigger after@, before@.with_context(id as int, cx)]
                after.current_task == before.current_task && after.tasks@
                    == before.tasks@.update(
                    id as int,
                    TaskControlBlock { task_cx: cx, ..before.tasks@[id as int] },
                ) implies after@ == before@.with_context(id as int, cx) && after@.wf() by {
                assert(after@.tasks =~= before@.with_context(id as int, cx).tasks);
            }
            assert forall|after: TaskManager|
                after.num_app == before.num_app && after.tasks@.len() == before.tasks@.len() && (
                forall|i: int|
                    0 <= i < after.tasks@.len() ==> (#[trigger] after.tasks@[i]).memory_set
                        == before.tasks@[i].memory_set) implies #[trigger] after.inv() by {
                after.lemma_same_address_spaces(before);
            }
        }
        &mut self.tasks[id].task_cx
    }

    /// The id of the current task.
    pub fn get_current_id(&self) -> (id: usize)
        ensures
            id == self@.current,
    {
        self.current_task
    }

    /// The number of tasks.
    pub fn get_num_app(&self) -> (n: usize)
        requires
            self.wf(),
        ensures
            n == self@.tasks.len(),
    {
        self.num_app
    }

    /// Counts one more call of `syscall_id` for the current task.
    pub fn inc_current_syscall_num(&mut self, syscall_id: usize)
        requires
            old(self).wf(),
            old(self)@.tasks.len() > 0,
            syscall_id < MAX_SYSCALL_NUM,
            old(self)@.tasks[old(self)@.current].syscall_counts[syscall_id as int] < u32::MAX,
        ensures
            final(self).wf(),
            final(self)@ == old(self)@.with_syscall_counted(syscall_id as int),
    {
        let current: usize = self.current_task;
        assert(self@.tasks[self@.current] == self.tasks@[current as int]@);
        self.tasks[current].syscall_times[syscall_id] += 1;
        proof {
            assert(self@.tasks[current as int].syscall_counts =~= old(
                self,
            )@.with_syscall_counted(syscall_id as int).tasks[current as int].syscall_counts);
            assert(self@.tasks =~= old(self)@.with_syscall_counted(syscall_id as int).tasks);
            self.lemma_same_address_spaces(*old(self));
        }
    }

    /// A registry whose tasks have the address spaces they had before is
    /// consistent where its view is.
    proof fn lemma_same_address_spaces(&self, before: TaskManager)
        requires
            before.inv(),
            self.num_app == before.num_app,
            self.tasks@.len() == before.tasks@.len(),
            forall|i: int|
                0 <= i < self.tasks@.len() ==> (#[trigger] self.tasks@[i]).memory_set
                    == before.tasks@[i].memory_set,
        ensures
            self.inv(),
    {
        assert forall|i: int| 0 <= i < self.tasks@.len() implies (#[trigger] self.tasks@[i]).wf() by {
            assert(before.tasks@[i].wf());
        }
    }

    /// A registry equals, as a value, the one it was before any change.
    proof fn lemma_unchanged(&self, before: TaskManager)
        requires
            self.tasks@ == before.tasks@,
            self.current_task == before.current_task,
            before@.has_task(before@.current),
        ensures
            self@ == before@.with_current_mapping(before@.current_mapping()),
    {
        assert(self@.tasks =~= before@.with_current_mapping(before@.current_mapping()).tasks);
    }

    /// A registry in which only the address space of the current task has
    /// changed is the former one with the new address space in that place.
    proof fn lemma_remapped(&self, before: TaskManager)
        requires
            before.wf(),
            before@.has_task(before@.current),
            self.num_app == before.num_app,
            self.current_task == before.current_task,
            self.tasks@ == before.tasks@.update(
                before.current_task as int,
                TaskControlBlock {
                    memory_set: self.tasks@[before.current_task as int].memory_set,
                    ..before.tasks@[before.current_task as int]
                },
            ),
            self.tasks@[before.current_task as int].memory_set.wf(),
            self.tasks@[before.current_task as int].memory_set.spec_token()
                == before.tasks@[before.current_task as int].memory_set.spec_token(),
        ensures
            self.wf(),
            self@ == before@.with_current_mapping(self@.current_mapping()),
    {
        assert(self@.tasks =~= before@.with_current_mapping(self@.current_mapping()).tasks);
        assert forall|i: int| 0 <= i < self.tasks@.len() implies (#[trigger] self.tasks@[i]).wf() by {
            if i != before.current_task {
                assert(before.tasks@[i].wf());
            }
        }
        assert forall|i: int| self@.has_task(i) implies (#[trigger] self@.tasks[i]).status
            == before@.tasks[i].status && self@.tasks[i].syscall_counts
            == before@.tasks[i].syscall_counts by {}
    }
}

/// Whether any of the pages `start..end` is mapped in `memory_set`.
fn any_mapped(memory_set: &MemorySet, start: VirtPageNum, end: VirtPageNum) -> (found: bool)
    requires
        memory_set.wf(),
    ensures
        found <==> !range_unmapped(memory_set@, start.0, end.0),
{
    let mut vpn: usize = start.0;
    while vpn < end.0
        invariant
            memory_set.wf(),
            start.0 <= vpn,
            range_unmapped(memory_set@, start.0, vpn),
        decreases end.0 - vpn,
    {
        let mapped = match memory_set.translate(VirtPageNum(vpn)) {
            Some(pte) => pte.is_valid(),
            None => false,
        };
        if mapped {
            return true;
        }
        vpn += 1;
    }
    false
}

/// Whether any of the pages `start..end` is not mapped in `memory_set`.
fn any_unmapped(memory_set: &MemorySet, start: VirtPageNum, end: VirtPageNum) -> (found: bool)
    requires
        memory_set.wf(),
    ensures
        found <==> !range_mapped(memory_set@, start.0, end.0),
{
    let mut vpn: usize = start.0;
    while vpn < end.0
        invariant
            memory_set.wf(),
            start.0 <= vpn,
            range_mapped(memory_set@, start.0, vpn),
        decreases end.0 - vpn,
    {
        let unmapped = match memory_set.translate(VirtPageNum(vpn)) {
            Some(pte) => !pte.is_valid(),
            None => true,
        };
        if unmapped {
            return true;
        }
        vpn += 1;
    }
    false
}

/// Unmaps the pages `start..end` of `memory_set`, one by one.
fn unmap_pages(memory_set: &mut MemorySet, start: VirtPageNum, end: VirtPageNum)
    requires
        old(memory_set).wf(),
    ensures
        final(memory_set).wf(),
        final(memory_set)@ == unmap_range(old(memory_set)@, start.0, end.0),
        final(memory_set).spec_token() == old(memory_set).spec_token(),
{
    let mut vpn: usize = start.0;
    assert(memory_set@ =~= unmap_range(old(memory_set)@, start.0, vpn));
    while vpn < end.0
        invariant
            memory_set.wf(),
            start.0 <= vpn,
            vpn <= end.0 || vpn == start.0,
            memory_set@ == unmap_range(old(memory_set)@, start.0, vpn),
            memory_set.spec_token() == old(memory_set).spec_token(),
        decreases end.0 - vpn,
    {
        memory_set.munmap(VirtPageNum(vpn));
        vpn += 1;
        assert(memory_set@ =~= unmap_range(old(memory_set)@, start.0, vpn));
    }
    assert(memory_set@ =~= unmap_range(old(memory_set)@, start.0, end.0));
}

} // verus!

//! The order in which the scheduler hands out the CPU: round robin on the
//! ring of task ids.

use vstd::prelude::*;
use vstd::arithmetic::div_mod::{
    lemma_add_mod_noop, lemma_mod_add_multiples_vanish, lemma_mod_equivalence, lemma_small_mod,
};
use super::lifecycle::{lemma_run_next, lemma_suspend};
use super::model::ManagerView;
use super::task::TaskStatus;

verus! {

impl ManagerView {
    /// Whether the current task is running and every other task is ready:
    /// all tasks take part in the rotation.
    pub open spec fn all_in_rotation(self) -> bool {
        &&& self.running()
        &&& forall|i: int|
            self.has_task(i) && i != self.current ==> (#[trigger] self.tasks[i]).status
                == TaskStatus::Ready
    }

    /// The registry after the running task has given up the CPU once for
    /// each of the times `nows`, in their order.
    pub open spec fn after_yields(self, nows: Seq<usize>) -> ManagerView
        decreases nows.len(),
    {
        if nows.len() == 0 {
            self
        } else {
            self.after_yields(nows.drop_last()).suspend_and_run_next(nows.last())
        }
    }
}

/// The next ready task is the ready task with the lowest id above the
/// current one; where no ready task has a higher id than the current one, it
/// is the ready task with the lowest id of all. It lies `ring_distance`
/// places after the current task, counted modulo the number of tasks.
pub proof fn lemma_next_ready_order(s: ManagerView, next: int)
    requires
        s.wf(),
        s.is_next_ready(next),
    ensures
        forall|j: int|
            s.has_task(j) && (#[trigger] s.tasks[j]).status == TaskStatus::Ready && j > s.current
                ==> s.current < next <= j,
        next <= s.current ==> forall|j: int|
            s.has_task(j) && (#[trigger] s.tasks[j]).status == TaskStatus::Ready ==> next <= j
                <= s.current,
        1 <= s.ring_distance(next) <= s.tasks.len(),
        next == (s.current + s.ring_distance(next)) % (s.tasks.len() as int),
{
    let n = s.tasks.len() as int;
    assert forall|j: int|
        s.has_task(j) && (#[trigger] s.tasks[j]).status == TaskStatus::Ready && j
            > s.current implies s.current < next <= j by {
        assert(s.ring_distance(next) <= s.ring_distance(j));
    }
    if next <= s.current {
        assert forall|j: int|
            s.has_task(j) && (#[trigger] s.tasks[j]).status == TaskStatus::Ready implies next <= j
            <= s.current by {
            assert(s.ring_distance(next) <= s.ring_distance(j));
        }
        lemma_mod_add_multiples_vanish(next, n);
        lemma_small_mod(next as nat, n as nat);
    } else {
        lemma_small_mod(next as nat, n as nat);
    }
}

/// Where all tasks take part in the rotation, the task that gives up the
/// CPU hands it to its successor on the ring of ids, and all tasks still
/// take part.
pub proof fn lemma_yield_passes_to_successor(s: ManagerView, now: usize)
    requires
        s.wf(),
        s.all_in_rotation(),
    ensures
        s.suspend_and_run_next(now).wf(),
        s.suspend_and_run_next(now).all_in_rotation(),
        s.suspend_and_run_next(now).tasks.len() == s.tasks.len(),
        s.suspend_and_run_next(now).current == (s.current + 1) % (s.tasks.len() as int),
{
    let n = s.tasks.len() as int;
    let mid = s.suspended();
    lemma_suspend(s);
    let successor = if s.current + 1 < n {
        s.current + 1
    } else {
        0
    };
    assert(mid.tasks[successor].status == TaskStatus::Ready);
    assert(mid.ring_distance(successor) == 1);
    assert(mid.is_next_ready(successor));
    mid.lemma_next_ready();
    lemma_run_next(mid, now);
    if s.current + 1 < n {
        lemma_small_mod((s.current + 1) as nat, n as nat);
    } else {
        lemma_mod_add_multiples_vanish(0, n);
        lemma_small_mod(0, n as nat);
    }
}

/// Round robin: where all tasks take part in the rotation, then after `k`
/// times that the running task has given up the CPU, the task `k` places
/// after the first one on the ring of ids is running, and all tasks still
/// take part.
pub proof fn lemma_round_robin(s: ManagerView, nows: Seq<usize>)
    requires
        s.wf(),
        s.all_in_rotation(),
    ensures
        s.after_yields(nows).wf(),
        s.after_yields(nows).all_in_rotation(),
        s.after_yields(nows).tasks.len() == s.tasks.len(),
        s.after_yields(nows).current == (s.current + nows.len()) % (s.tasks.len() as int),
    decreases nows.len(),
{
    let n = s.tasks.len() as int;
    if nows.len() == 0 {
        lemma_small_mod(s.current as nat, n as nat);
    } else {
        let before = s.after_yields(nows.drop_last());
        lemma_round_robin(s, nows.drop_last());
        lemma_yield_passes_to_successor(before, nows.last());
        let k = nows.len() - 1;
        lemma_add_mod_noop(s.current + k, 1, n);
        if n == 1 {
        } else {
            lemma_small_mod(1, n as nat);
        }
    }
}

/// Fairness: where all `N` tasks take part in the rotation, `N` times that
/// the running task gives up the CPU give it to every task exactly once:
/// task `id` gets it at the yield whose number is the distance of `id` from
/// the first running task, no two of the yields give it to the same task,
/// and the last of them gives it back to the task that ran first.
pub proof fn lemma_full_cycle(s: ManagerView, nows: Seq<usize>)
    requires
        s.wf(),
        s.all_in_rotation(),
        nows.len() == s.tasks.len(),
    ensures
        forall|id: int|
            s.has_task(id) ==> 1 <= #[trigger] s.ring_distance(id) <= nows.len() && s.after_yields(
                nows.take(s.ring_distance(id)),
            ).current == id,
        forall|j: int, k: int|
            #![trigger nows.take(j), nows.take(k)]
            1 <= j < k <= nows.len() ==> s.after_yields(nows.take(j)).current != s.after_yields(
                nows.take(k),
            ).current,
        s.after_yields(nows).current == s.current,
{
    let n = s.tasks.len() as int;
    assert forall|id: int| s.has_task(id) implies 1 <= #[trigger] s.ring_distance(id) <= nows.len()
        && s.after_yields(nows.take(s.ring_distance(id))).current == id by {
        let k = s.ring_distance(id);
        lemma_round_robin(s, nows.take(k));
        if id > s.current {
            lemma_small_mod(id as nat, n as nat);
        } else {
            lemma_mod_add_multiples_vanish(id, n);
            lemma_small_mod(id as nat, n as nat);
        }
    }
    assert forall|j: int, k: int|
        #![trigger nows.take(j), nows.take(k)]
        1 <= j < k <= nows.len() implies s.after_yields(nows.take(j)).current != s.after_yields(
        nows.take(k),
    ).current by {
        lemma_round_robin(s, nows.take(j));
        lemma_round_robin(s, nows.take(k));
        if (s.current + j) % n == (s.current + k) % n {
            lemma_mod_equivalence(s.current + k, s.current + j, n);
            lemma_small_mod((k - j) as nat, n as nat);
        }
    }
    assert(s.ring_distance(s.current) == n);
    assert(nows.take(n) =~= nows);
}

} // verus!

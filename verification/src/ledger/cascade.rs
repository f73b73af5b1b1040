//! Failure upstream: unbound edges become void, and what waits for them is cancelled or blocked.
use std::collections::VecDeque;
use vstd::prelude::*;

use crate::contract::{DependencyFailurePolicy, TaskSchedulingState, TaskState};
use crate::identity::TaskId;
use crate::ledger::dependencies::{cancel_queued, unsatisfied};
use crate::ledger::{complete_watches, find_task, is_task, Ledger, Model};
use crate::rows::{DependencyRow, SchedulingRow, TaskRow, TransitionReason};
use crate::select::{count_update, count_where, first_says, first_where};

verus! {

pub open spec fn is_queued() -> spec_fn(TaskRow) -> bool {
    |t: TaskRow| t.state == TaskState::Queued
}

/// A queued and ready Task blocked again.
pub open spec fn block_ready(m: Model, task: TaskId) -> Model {
    match first_where(m.tasks, is_task(task)) {
        None => m,
        Some(i) => if m.tasks[i].state == TaskState::Queued && m.tasks[i].scheduling
            == TaskSchedulingState::Ready {
            Model {
                tasks: m.tasks.update(
                    i,
                    TaskRow { scheduling: TaskSchedulingState::Blocked, ..m.tasks[i] },
                ),
                scheduling: m.scheduling.push(
                    SchedulingRow {
                        task,
                        from: Some(TaskSchedulingState::Ready),
                        to: TaskSchedulingState::Blocked,
                        reason: TransitionReason::DependencyFailed,
                    },
                ),
                ..m
            }
        } else {
            m
        },
    }
}

/// Whether a Task is queued.
pub open spec fn queued(m: Model, task: TaskId) -> bool {
    match find_task(m, task) {
        Some(t) => t.state == TaskState::Queued,
        None => false,
    }
}

/// An edge that a failure of its upstream Task makes void.
pub open spec fn voidable(d: DependencyRow, upstream: TaskId) -> bool {
    d.upstream == upstream && !d.bound
}

/// Edge `k` after the failure of `upstream`; a Task that it cancels joins the queue.
pub open spec fn void_edge(m: Model, q: Seq<TaskId>, upstream: TaskId, k: int) -> (
    Model,
    Seq<TaskId>,
) {
    let d = m.dependencies[k];
    if voidable(d, upstream) {
        let cleared = Model { dependencies: m.dependencies.update(k, unsatisfied(d)), ..m };
        if d.policy == DependencyFailurePolicy::Cancel {
            (
                cancel_queued(cleared, d.task, TransitionReason::DependencyFailed),
                if queued(m, d.task) {
                    q.push(d.task)
                } else {
                    q
                },
            )
        } else {
            (block_ready(cleared, d.task), q)
        }
    } else {
        (m, q)
    }
}

/// The first `n` edges.
pub open spec fn void_edges(m: Model, q: Seq<TaskId>, upstream: TaskId, n: nat) -> (
    Model,
    Seq<TaskId>,
)
    decreases n,
{
    if n == 0 {
        (m, q)
    } else {
        let (before, waiting) = void_edges(m, q, upstream, (n - 1) as nat);
        void_edge(before, waiting, upstream, n - 1)
    }
}

/// All edges.
pub open spec fn void_all(m: Model, q: Seq<TaskId>, upstream: TaskId) -> (Model, Seq<TaskId>) {
    void_edges(m, q, upstream, m.dependencies.len())
}

/// What is left to do: queued Tasks count twice.
pub open spec fn work_left(m: Model, q: Seq<TaskId>) -> nat {
    2 * count_where(m.tasks, is_queued()) + q.len()
}

pub proof fn void_edges_shrinks(m: Model, q: Seq<TaskId>, upstream: TaskId, n: nat)
    requires
        n <= m.dependencies.len(),
    ensures
        work_left(
            void_edges(m, q, upstream, n).0,
            void_edges(m, q, upstream, n).1,
        ) <= work_left(m, q),
        void_edges(m, q, upstream, n).0.dependencies.len() == m.dependencies.len(),
        void_edges(m, q, upstream, n).0.tasks.len() == m.tasks.len(),
    decreases n,
{
    if n > 0 {
        void_edges_shrinks(m, q, upstream, (n - 1) as nat);
        let (before, waiting) = void_edges(m, q, upstream, (n - 1) as nat);
        let d = before.dependencies[n - 1];
        first_says(before.tasks, is_task(d.task));
        if let Some(i) = first_where(before.tasks, is_task(d.task)) {
            let t = before.tasks[i];
            count_update(
                before.tasks,
                is_queued(),
                i,
                TaskRow {
                    state: TaskState::Cancelled,
                    scheduling: TaskSchedulingState::Blocked,
                    ..t
                },
            );
            count_update(
                before.tasks,
                is_queued(),
                i,
                TaskRow { scheduling: TaskSchedulingState::Blocked, ..t },
            );
        }
    }
}

/// The queue worked off, first in first out.
pub open spec fn cascade_run(m: Model, q: Seq<TaskId>) -> Model
    decreases work_left(m, q),
{
    if q.len() == 0 {
        m
    } else {
        proof {
            void_edges_shrinks(m, q.drop_first(), q[0], m.dependencies.len());
        }
        let (next, waiting) = void_all(m, q.drop_first(), q[0]);
        cascade_run(next, waiting)
    }
}

/// What the failure or cancellation of one Task does downstream.
pub open spec fn cascade(m: Model, failed: TaskId) -> Model {
    complete_watches(cascade_run(m, seq![failed]))
}

impl Ledger {
    fn block_ready(&mut self, task: TaskId)
        ensures
            final(self)@ == block_ready(old(self)@, task),
    {
        if let Some(i) = self.task_position(task) {
            let t = self.tasks[i];
            if t.state == TaskState::Queued && t.scheduling == TaskSchedulingState::Ready {
                self.tasks.set(i, TaskRow { scheduling: TaskSchedulingState::Blocked, ..t });
                self.scheduling.push(
                    SchedulingRow {
                        task,
                        from: Some(TaskSchedulingState::Ready),
                        to: TaskSchedulingState::Blocked,
                        reason: TransitionReason::DependencyFailed,
                    },
                );
            }
        }
    }

    fn void_all(&mut self, queue: &mut VecDeque<TaskId>, upstream: TaskId)
        ensures
            (final(self)@, final(queue)@) == void_all(old(self)@, old(queue)@, upstream),
    {
        let n = self.dependencies.len();
        let mut k: usize = 0;
        while k < n
            invariant
                k <= n,
                n == self.dependencies.len(),
                n == old(self)@.dependencies.len(),
                (self@, queue@) == void_edges(old(self)@, old(queue)@, upstream, k as nat),
            decreases n - k,
        {
            let ghost (before, waiting) = (self@, queue@);
            proof {
                void_edges_shrinks(old(self)@, old(queue)@, upstream, (k + 1) as nat);
            }
            let d = self.dependencies[k];
            if d.upstream == upstream && !d.bound {
                self.dependencies.set(k, DependencyRow { satisfied: None, snapshot: None, ..d });
                if d.policy == DependencyFailurePolicy::Cancel {
                    if self.cancel_queued(d.task, TransitionReason::DependencyFailed) {
                        queue.push_back(d.task);
                    }
                } else {
                    self.block_ready(d.task);
                }
            }
            assert((self@, queue@) == void_edge(before, waiting, upstream, k as int));
            k += 1;
        }
    }

    /// Voids what waits for a failed or cancelled Task, and cancels or blocks accordingly.
    pub fn cascade_failed_dependencies(&mut self, failed: TaskId)
        ensures
            final(self)@ == cascade(old(self)@, failed),
    {
        let mut queue: VecDeque<TaskId> = VecDeque::new();
        queue.push_back(failed);
        assert(queue@ =~= seq![failed]);
        while queue.len() > 0
            invariant
                cascade_run(self@, queue@) == cascade_run(old(self)@, seq![failed]),
            decreases work_left(self@, queue@),
        {
            let ghost (before, waiting) = (self@, queue@);
            if let Some(upstream) = queue.pop_front() {
                proof {
                    assert(queue@ =~= waiting.drop_first());
                    void_edges_shrinks(
                        before,
                        waiting.drop_first(),
                        upstream,
                        before.dependencies.len(),
                    );
                }
                self.void_all(&mut queue, upstream);
            }
        }
        self.complete_watches();
    }
}

} // verus!

//! Dependency edges: when they are satisfied, revoked or made void by a failure upstream.
use vstd::prelude::*;

use crate::contract::{DependencyCondition, DependencyFailurePolicy, TaskSchedulingState, TaskState};
use crate::identity::{AttachmentId, TaskId};
use crate::ledger::{find_task, held, is_task, Ledger, Model};
use crate::rows::{
    DependencyRow, ResultRow, SchedulingRow, TaskRow, TransitionReason, TransitionRow,
};
use crate::select::{first_found, first_missing, first_says, first_where, some_where};

verus! {

// ---------------------------------------------------------------------------------------------
// Selections
// ---------------------------------------------------------------------------------------------

pub open spec fn is_unmet_of(task: TaskId) -> spec_fn(DependencyRow) -> bool {
    |d: DependencyRow| d.task == task && d.satisfied is None
}

/// A Task that waits for something.
pub open spec fn unmet(m: Model, task: TaskId) -> bool {
    some_where(m.dependencies, is_unmet_of(task))
}

pub open spec fn is_result(task: TaskId, revision: u32) -> spec_fn(ResultRow) -> bool {
    |r: ResultRow| r.task == task && r.revision == revision
}

/// The immutable snapshot of a Result revision.
pub open spec fn result_snapshot(m: Model, task: TaskId, revision: u32) -> Option<AttachmentId> {
    match first_where(m.results, is_result(task, revision)) {
        Some(i) => Some(m.results[i].snapshot),
        None => None,
    }
}

/// An edge satisfied by a Result revision.
pub open spec fn satisfied_by(d: DependencyRow, revision: u32, at: AttachmentId) -> DependencyRow {
    DependencyRow { satisfied: Some(revision), snapshot: Some(at), ..d }
}

/// An edge that is satisfied no more.
pub open spec fn unsatisfied(d: DependencyRow) -> DependencyRow {
    DependencyRow { satisfied: None, snapshot: None, ..d }
}

impl Ledger {
    /// Whether a Task waits for something.
    pub fn has_unmet(&self, task: TaskId) -> (r: bool)
        ensures
            r == unmet(self@, task),
    {
        let mut i: usize = 0;
        while i < self.dependencies.len()
            invariant
                i <= self.dependencies.len(),
                forall|j: int|
                    0 <= j < i ==> !is_unmet_of(task)(#[trigger] self.dependencies@[j]),
            decreases self.dependencies.len() - i,
        {
            if self.dependencies[i].task == task && self.dependencies[i].satisfied.is_none() {
                assert(is_unmet_of(task)(self@.dependencies[i as int]));
                return true;
            }
            i += 1;
        }
        false
    }

    /// The immutable snapshot of a Result revision.
    pub fn result_snapshot(&self, task: TaskId, revision: u32) -> (r: Option<AttachmentId>)
        ensures
            r == result_snapshot(self@, task, revision),
    {
        let mut i: usize = 0;
        while i < self.results.len()
            invariant
                i <= self.results.len(),
                forall|j: int|
                    0 <= j < i ==> !is_result(task, revision)(#[trigger] self.results@[j]),
            decreases self.results.len() - i,
        {
            if self.results[i].task == task && self.results[i].revision == revision {
                proof {
                    first_found(self@.results, is_result(task, revision), i as int);
                }
                return Some(self.results[i].snapshot);
            }
            i += 1;
        }
        proof {
            first_missing(self@.results, is_result(task, revision));
        }
        None
    }
}

// ---------------------------------------------------------------------------------------------
// A new or recovered Task
// ---------------------------------------------------------------------------------------------

/// The Result revision that the upstream Task of an edge offers at present.
pub open spec fn offered(m: Model, d: DependencyRow) -> Option<u32> {
    match find_task(m, d.upstream) {
        None => None,
        Some(t) => if d.condition == DependencyCondition::Approved {
            if t.state == TaskState::Approved {
                t.approved_revision
            } else {
                None
            }
        } else if t.state == TaskState::Reviewing || t.state == TaskState::Approved {
            if held(m, t.worktree) {
                None
            } else {
                Some(t.revision)
            }
        } else {
            None
        },
    }
}

/// An edge of a Task after looking at its upstream Task.
pub open spec fn looked_at(m: Model, task: TaskId, d: DependencyRow) -> DependencyRow {
    if d.task != task {
        d
    } else {
        match offered(m, d) {
            None => d,
            Some(revision) => match result_snapshot(m, d.upstream, revision) {
                None => d,
                Some(at) => satisfied_by(d, revision, at),
            },
        }
    }
}

/// All edges of a Task looked at.
pub open spec fn look_at_edges(m: Model, task: TaskId) -> Model {
    Model {
        dependencies: Seq::new(
            m.dependencies.len(),
            |i: int| looked_at(m, task, m.dependencies[i]),
        ),
        ..m
    }
}

/// Unmet edges of a Task whose upstream Task failed or was cancelled.
pub open spec fn is_lost_edge_of(m: Model, task: TaskId) -> spec_fn(DependencyRow) -> bool {
    |d: DependencyRow|
        d.task == task && d.satisfied is None && (match find_task(m, d.upstream) {
            Some(t) => t.state == TaskState::Failed || t.state == TaskState::Cancelled,
            None => false,
        })
}

/// A queued Task cancelled for a dependency.
pub open spec fn cancel_queued(m: Model, task: TaskId, reason: TransitionReason) -> Model {
    match first_where(m.tasks, is_task(task)) {
        None => m,
        Some(i) => if m.tasks[i].state == TaskState::Queued {
            Model {
                tasks: m.tasks.update(
                    i,
                    TaskRow {
                        state: TaskState::Cancelled,
                        scheduling: TaskSchedulingState::Blocked,
                        ..m.tasks[i]
                    },
                ),
                transitions: m.transitions.push(
                    TransitionRow {
                        task,
                        from: Some(TaskState::Queued),
                        to: TaskState::Cancelled,
                        reason,
                    },
                ),
                ..m
            }
        } else {
            m
        },
    }
}

/// A blocked Task made ready.
pub open spec fn make_ready(m: Model, task: TaskId) -> Model {
    match first_where(m.tasks, is_task(task)) {
        None => m,
        Some(i) => if m.tasks[i].scheduling == TaskSchedulingState::Blocked {
            Model {
                tasks: m.tasks.update(
                    i,
                    TaskRow { scheduling: TaskSchedulingState::Ready, ..m.tasks[i] },
                ),
                scheduling: m.scheduling.push(
                    SchedulingRow {
                        task,
                        from: Some(TaskSchedulingState::Blocked),
                        to: TaskSchedulingState::Ready,
                        reason: TransitionReason::AlreadySatisfied,
                    },
                ),
                ..m
            }
        } else {
            m
        },
    }
}

/// Dependencies of one Task evaluated against the present: satisfied edges are marked, a lost
/// edge with the cancelling policy cancels the Task, and a Task without unmet edges is ready.
pub open spec fn reevaluate(m: Model, task: TaskId) -> Model {
    let seen = look_at_edges(m, task);
    match first_where(seen.dependencies, is_lost_edge_of(seen, task)) {
        Some(k) if seen.dependencies[k].policy == DependencyFailurePolicy::Cancel => cancel_queued(
            seen,
            task,
            TransitionReason::DependencyAlreadyFailed,
        ),
        _ => if unmet(seen, task) {
            seen
        } else {
            make_ready(seen, task)
        },
    }
}

impl Ledger {
    fn offered(&self, d: DependencyRow) -> (r: Option<u32>)
        ensures
            r == offered(self@, d),
    {
        match self.task(d.upstream) {
            None => None,
            Some(t) => if d.condition == DependencyCondition::Approved {
                if t.state == TaskState::Approved {
                    t.approved_revision
                } else {
                    None
                }
            } else if t.state == TaskState::Reviewing || t.state == TaskState::Approved {
                if self.is_held(t.worktree) {
                    None
                } else {
                    Some(t.revision)
                }
            } else {
                None
            },
        }
    }

    fn look_at_edges(&mut self, task: TaskId)
        ensures
            final(self)@ == look_at_edges(old(self)@, task),
    {
        let n = self.dependencies.len();
        let mut i: usize = 0;
        while i < n
            invariant
                i <= n,
                n == self.dependencies.len(),
                n == old(self).dependencies.len(),
                self@ == (Model { dependencies: self.dependencies@, ..old(self)@ }),
                forall|j: int|
                    0 <= j < i ==> #[trigger] self.dependencies@[j] == looked_at(
                        old(self)@,
                        task,
                        old(self).dependencies@[j],
                    ),
                forall|j: int|
                    i <= j < n ==> #[trigger] self.dependencies@[j] == old(self).dependencies@[j],
            decreases n - i,
        {
            let d = self.dependencies[i];
            if d.task == task {
                let offer = self.offered(d);
                assert(offer == offered(old(self)@, d));
                if let Some(revision) = offer {
                    if let Some(at) = self.result_snapshot(d.upstream, revision) {
                        self.dependencies.set(
                            i,
                            DependencyRow { satisfied: Some(revision), snapshot: Some(at), ..d },
                        );
                    }
                }
            }
            i += 1;
        }
        assert(self.dependencies@ =~= look_at_edges(old(self)@, task).dependencies);
    }

    fn first_lost_edge(&self, task: TaskId) -> (r: Option<usize>)
        ensures
            match r {
                Some(i) => first_where(self@.dependencies, is_lost_edge_of(self@, task)) == Some(
                    i as int,
                ) && i < self.dependencies.len(),
                None => first_where(self@.dependencies, is_lost_edge_of(self@, task)) is None,
            },
    {
        let mut i: usize = 0;
        while i < self.dependencies.len()
            invariant
                i <= self.dependencies.len(),
                forall|j: int|
                    0 <= j < i ==> !is_lost_edge_of(self@, task)(
                        #[trigger] self.dependencies@[j],
                    ),
            decreases self.dependencies.len() - i,
        {
            let d = self.dependencies[i];
            if d.task == task && d.satisfied.is_none() {
                let lost = match self.task(d.upstream) {
                    Some(t) => t.state == TaskState::Failed || t.state == TaskState::Cancelled,
                    None => false,
                };
                if lost {
                    proof {
                        first_found(self@.dependencies, is_lost_edge_of(self@, task), i as int);
                    }
                    return Some(i);
                }
            }
            i += 1;
        }
        proof {
            first_missing(self@.dependencies, is_lost_edge_of(self@, task));
        }
        None
    }

    /// Cancels a queued Task for a dependency; says whether it was queued.
    pub fn cancel_queued(&mut self, task: TaskId, reason: TransitionReason) -> (r: bool)
        ensures
            final(self)@ == cancel_queued(old(self)@, task, reason),
            r == (match find_task(old(self)@, task) {
                Some(t) => t.state == TaskState::Queued,
                None => false,
            }),
    {
        match self.task_position(task) {
            None => false,
            Some(i) => {
                let t = self.tasks[i];
                if t.state == TaskState::Queued {
                    self.tasks.set(
                        i,
                        TaskRow {
                            state: TaskState::Cancelled,
                            scheduling: TaskSchedulingState::Blocked,
                            ..t
                        },
                    );
                    self.transitions.push(
                        TransitionRow {
                            task,
                            from: Some(TaskState::Queued),
                            to: TaskState::Cancelled,
                            reason,
                        },
                    );
                    true
                } else {
                    false
                }
            },
        }
    }

    fn make_ready(&mut self, task: TaskId)
        ensures
            final(self)@ == make_ready(old(self)@, task),
    {
        if let Some(i) = self.task_position(task) {
            let t = self.tasks[i];
            if t.scheduling == TaskSchedulingState::Blocked {
                self.tasks.set(i, TaskRow { scheduling: TaskSchedulingState::Ready, ..t });
                self.scheduling.push(
                    SchedulingRow {
                        task,
                        from: Some(TaskSchedulingState::Blocked),
                        to: TaskSchedulingState::Ready,
                        reason: TransitionReason::AlreadySatisfied,
                    },
                );
            }
        }
    }

    /// Evaluates the dependencies of one Task against the present.
    pub fn reevaluate_new_task_dependencies(&mut self, task: TaskId)
        ensures
            final(self)@ == reevaluate(old(self)@, task),
    {
        self.look_at_edges(task);
        let lost = self.first_lost_edge(task);
        if let Some(k) = lost {
            if self.dependencies[k].policy == DependencyFailurePolicy::Cancel {
                let _ = self.cancel_queued(task, TransitionReason::DependencyAlreadyFailed);
                return ;
            }
        }
        if !self.has_unmet(task) {
            self.make_ready(task);
        }
    }
}

/// The first `n` Tasks evaluated again where they are still queued and blocked.
pub open spec fn recover_upto(m: Model, n: nat) -> Model
    decreases n,
{
    if n == 0 {
        m
    } else {
        let before = recover_upto(m, (n - 1) as nat);
        let t = before.tasks[n - 1];
        if t.state == TaskState::Queued && t.scheduling == TaskSchedulingState::Blocked {
            reevaluate(before, t.id)
        } else {
            before
        }
    }
}

proof fn reevaluate_keeps_task_count(m: Model, task: TaskId)
    ensures
        reevaluate(m, task).tasks.len() == m.tasks.len(),
{
    first_says(m.tasks, is_task(task));
}

impl Ledger {
    /// Evaluates every queued and blocked Task again after a restart.
    pub fn recover_task_scheduling(&mut self)
        ensures
            final(self)@ == recover_upto(old(self)@, old(self)@.tasks.len()),
    {
        let n = self.tasks.len();
        let mut i: usize = 0;
        while i < n
            invariant
                i <= n,
                n == self.tasks.len(),
                n == old(self)@.tasks.len(),
                self@ == recover_upto(old(self)@, i as nat),
            decreases n - i,
        {
            let t = self.tasks[i];
            if t.state == TaskState::Queued && t.scheduling == TaskSchedulingState::Blocked {
                proof {
                    reevaluate_keeps_task_count(self@, t.id);
                }
                self.reevaluate_new_task_dependencies(t.id);
            }
            i += 1;
        }
    }
}

} // verus!

//! What the settlement of one Task means for the Tasks downstream.
use std::collections::VecDeque;
use vstd::prelude::*;

use crate::contract::{DependencyCondition, TaskSchedulingState, TaskState};
use crate::identity::TaskId;
use crate::ledger::dependencies::{result_snapshot, satisfied_by, unmet, unsatisfied};
use crate::ledger::{Ledger, Model};
use crate::rows::{DependencyRow, SchedulingRow, TaskRow, TransitionReason};

verus! {

// ---------------------------------------------------------------------------------------------
// Scheduling flips
// ---------------------------------------------------------------------------------------------

/// A queued Task of the set with one scheduling state.
pub open spec fn flips(t: TaskRow, who: Set<TaskId>, from: TaskSchedulingState) -> bool {
    t.state == TaskState::Queued && t.scheduling == from && who.contains(t.id)
}

/// Log rows of the first `n` Tasks.
pub open spec fn flip_log(
    tasks: Seq<TaskRow>,
    who: Set<TaskId>,
    from: TaskSchedulingState,
    to: TaskSchedulingState,
    reason: TransitionReason,
    n: nat,
) -> Seq<SchedulingRow>
    decreases n,
{
    if n == 0 {
        Seq::empty()
    } else {
        let before = flip_log(tasks, who, from, to, reason, (n - 1) as nat);
        if flips(tasks[n - 1], who, from) {
            before.push(SchedulingRow { task: tasks[n - 1].id, from: Some(from), to, reason })
        } else {
            before
        }
    }
}

/// Every queued Task of a set moved from one scheduling state to the other, with its log row.
pub open spec fn flip(
    m: Model,
    who: Set<TaskId>,
    from: TaskSchedulingState,
    to: TaskSchedulingState,
    reason: TransitionReason,
) -> Model {
    Model {
        tasks: Seq::new(
            m.tasks.len(),
            |i: int|
                if flips(m.tasks[i], who, from) {
                    TaskRow { scheduling: to, ..m.tasks[i] }
                } else {
                    m.tasks[i]
                },
        ),
        scheduling: m.scheduling + flip_log(m.tasks, who, from, to, reason, m.tasks.len()),
        ..m
    }
}

fn listed(ids: &Vec<TaskId>, id: TaskId) -> (r: bool)
    ensures
        r == ids@.to_set().contains(id),
{
    let mut i: usize = 0;
    while i < ids.len()
        invariant
            i <= ids.len(),
            forall|j: int| 0 <= j < i ==> ids@[j] != id,
        decreases ids.len() - i,
    {
        if ids[i] == id {
            assert(ids@.contains(id));
            return true;
        }
        i += 1;
    }
    false
}

impl Ledger {
    fn flip(
        &mut self,
        ids: &Vec<TaskId>,
        from: TaskSchedulingState,
        to: TaskSchedulingState,
        reason: TransitionReason,
    )
        ensures
            final(self)@ == flip(old(self)@, ids@.to_set(), from, to, reason),
    {
        let ghost who = ids@.to_set();
        let n = self.tasks.len();
        let mut i: usize = 0;
        while i < n
            invariant
                i <= n,
                n == self.tasks.len(),
                n == old(self).tasks.len(),
                who == ids@.to_set(),
                self@ == (Model {
                    tasks: self.tasks@,
                    scheduling: self.scheduling@,
                    ..old(self)@
                }),
                self.scheduling@ == old(self).scheduling@ + flip_log(
                    old(self).tasks@,
                    who,
                    from,
                    to,
                    reason,
                    i as nat,
                ),
                forall|j: int|
                    0 <= j < i ==> #[trigger] self.tasks@[j] == (if flips(
                        old(self).tasks@[j],
                        who,
                        from,
                    ) {
                        TaskRow { scheduling: to, ..old(self).tasks@[j] }
                    } else {
                        old(self).tasks@[j]
                    }),
                forall|j: int| i <= j < n ==> #[trigger] self.tasks@[j] == old(self).tasks@[j],
            decreases n - i,
        {
            let t = self.tasks[i];
            if t.state == TaskState::Queued && t.scheduling == from && listed(ids, t.id) {
                self.tasks.set(i, TaskRow { scheduling: to, ..t });
                self.scheduling.push(SchedulingRow { task: t.id, from: Some(from), to, reason });
            }
            i += 1;
        }
        assert(self.tasks@ =~= flip(old(self)@, who, from, to, reason).tasks);
    }
}

// ---------------------------------------------------------------------------------------------
// Satisfaction
// ---------------------------------------------------------------------------------------------

/// An edge downstream of a Task that waits for a condition.
pub open spec fn awaits(d: DependencyRow, upstream: TaskId, condition: DependencyCondition) -> bool {
    d.upstream == upstream && d.condition == condition
}

/// Tasks downstream whose dependencies are all met.
pub open spec fn woken(
    m: Model,
    upstream: TaskId,
    condition: DependencyCondition,
) -> Set<TaskId> {
    Set::new(
        |id: TaskId|
            !unmet(m, id) && exists|i: int|
                0 <= i < m.dependencies.len() && (#[trigger] m.dependencies[i]).task == id
                    && awaits(m.dependencies[i], upstream, condition),
    )
}

/// Open edges downstream satisfied by a Result revision, where its snapshot exists.
pub open spec fn satisfy_edges(
    m: Model,
    upstream: TaskId,
    condition: DependencyCondition,
    revision: u32,
) -> Model {
    match result_snapshot(m, upstream, revision) {
        None => m,
        Some(at) => Model {
            dependencies: Seq::new(
                m.dependencies.len(),
                |i: int|
                    if awaits(m.dependencies[i], upstream, condition)
                        && m.dependencies[i].satisfied is None {
                        satisfied_by(m.dependencies[i], revision, at)
                    } else {
                        m.dependencies[i]
                    },
            ),
            ..m
        },
    }
}

/// A condition reached upstream: edges satisfied, Tasks without unmet edges ready.
pub open spec fn satisfy_downstream(
    m: Model,
    upstream: TaskId,
    condition: DependencyCondition,
    revision: u32,
) -> Model {
    let satisfied = satisfy_edges(m, upstream, condition, revision);
    flip(
        satisfied,
        woken(satisfied, upstream, condition),
        TaskSchedulingState::Blocked,
        TaskSchedulingState::Ready,
        TransitionReason::Plain,
    )
}

impl Ledger {
    fn satisfy_edges(&mut self, upstream: TaskId, condition: DependencyCondition, revision: u32)
        ensures
            final(self)@ == satisfy_edges(old(self)@, upstream, condition, revision),
    {
        let at = match self.result_snapshot(upstream, revision) {
            None => {
                return ;
            },
            Some(at) => at,
        };
        let n = self.dependencies.len();
        let mut i: usize = 0;
        while i < n
            invariant
                i <= n,
                n == self.dependencies.len(),
                n == old(self).dependencies.len(),
                self@ == (Model { dependencies: self.dependencies@, ..old(self)@ }),
                forall|j: int|
                    0 <= j < i ==> #[trigger] self.dependencies@[j] == (if awaits(
                        old(self).dependencies@[j],
                        upstream,
                        condition,
                    ) && old(self).dependencies@[j].satisfied is None {
                        satisfied_by(old(self).dependencies@[j], revision, at)
                    } else {
                        old(self).dependencies@[j]
                    }),
                forall|j: int|
                    i <= j < n ==> #[trigger] self.dependencies@[j] == old(self).dependencies@[j],
            decreases n - i,
        {
            let d = self.dependencies[i];
            if d.upstream == upstream && d.condition == condition && d.satisfied.is_none() {
                self.dependencies.set(
                    i,
                    DependencyRow { satisfied: Some(revision), snapshot: Some(at), ..d },
                );
            }
            i += 1;
        }
        assert(self.dependencies@ =~= satisfy_edges(
            old(self)@,
            upstream,
            condition,
            revision,
        ).dependencies);
    }

    fn woken(&self, upstream: TaskId, condition: DependencyCondition) -> (r: Vec<TaskId>)
        ensures
            r@.to_set() == woken(self@, upstream, condition),
    {
        let mut r: Vec<TaskId> = Vec::new();
        let mut i: usize = 0;
        while i < self.dependencies.len()
            invariant
                i <= self.dependencies.len(),
                forall|id: TaskId|
                    r@.contains(id) <==> (!unmet(self@, id) && exists|k: int|
                        0 <= k < i && (#[trigger] self@.dependencies[k]).task == id && awaits(
                            self@.dependencies[k],
                            upstream,
                            condition,
                        )),
            decreases self.dependencies.len() - i,
        {
            let d = self.dependencies[i];
            let ghost before = r@;
            if d.upstream == upstream && d.condition == condition && !self.has_unmet(d.task) {
                r.push(d.task);
                assert forall|id: TaskId| r@.contains(id) <==> (before.contains(id) || id
                    == d.task) by {
                    if before.contains(id) {
                        let k = before.index_of(id);
                        assert(r@[k] == id);
                    }
                    if id == d.task {
                        assert(r@[before.len() as int] == id);
                    }
                }
            }
            assert forall|id: TaskId|
                r@.contains(id) <==> (!unmet(self@, id) && exists|k: int|
                    0 <= k < i + 1 && (#[trigger] self@.dependencies[k]).task == id && awaits(
                        self@.dependencies[k],
                        upstream,
                        condition,
                    )) by {
                assert(self@.dependencies[i as int] == d);
                if before.contains(id) {
                    let k = choose|k: int|
                        0 <= k < i && (#[trigger] self@.dependencies[k]).task == id && awaits(
                            self@.dependencies[k],
                            upstream,
                            condition,
                        );
                    assert(self@.dependencies[k].task == id);
                    assert(r@.contains(id));
                }
                if r@.contains(id) && !before.contains(id) {
                    assert(id == d.task);
                    assert(self@.dependencies[i as int].task == id);
                }
            }
            i += 1;
        }
        assert(r@.to_set() =~= woken(self@, upstream, condition));
        r
    }

    /// A condition reached upstream.
    pub fn satisfy_downstream_dependencies(
        &mut self,
        upstream: TaskId,
        condition: DependencyCondition,
        revision: u32,
    )
        ensures
            final(self)@ == satisfy_downstream(old(self)@, upstream, condition, revision),
    {
        self.satisfy_edges(upstream, condition, revision);
        let ids = self.woken(upstream, condition);
        self.flip(
            &ids,
            TaskSchedulingState::Blocked,
            TaskSchedulingState::Ready,
            TransitionReason::Plain,
        );
    }
}

// ---------------------------------------------------------------------------------------------
// Revocation
// ---------------------------------------------------------------------------------------------

/// An unbound edge that waits for a Result.
pub open spec fn revocable(d: DependencyRow, upstream: TaskId) -> bool {
    awaits(d, upstream, DependencyCondition::ResultReady) && !d.bound
}

/// Tasks that lose a satisfied edge.
pub open spec fn deprived(m: Model, upstream: TaskId) -> Set<TaskId> {
    Set::new(
        |id: TaskId|
            exists|i: int|
                0 <= i < m.dependencies.len() && (#[trigger] m.dependencies[i]).task == id
                    && revocable(m.dependencies[i], upstream) && m.dependencies[i].satisfied
                    is Some,
    )
}

/// A Result withdrawn for correction: unbound edges that relied on it are open again, and their
/// queued Tasks are blocked.
pub open spec fn revoke(m: Model, upstream: TaskId) -> Model {
    flip(
        Model {
            dependencies: Seq::new(
                m.dependencies.len(),
                |i: int|
                    if revocable(m.dependencies[i], upstream) {
                        unsatisfied(m.dependencies[i])
                    } else {
                        m.dependencies[i]
                    },
            ),
            ..m
        },
        deprived(m, upstream),
        TaskSchedulingState::Ready,
        TaskSchedulingState::Blocked,
        TransitionReason::UpstreamCorrection,
    )
}

impl Ledger {
    /// A Result withdrawn for correction.
    pub fn revoke_unbound_result_dependencies(&mut self, upstream: TaskId)
        ensures
            final(self)@ == revoke(old(self)@, upstream),
    {
        let mut ids: Vec<TaskId> = Vec::new();
        let n = self.dependencies.len();
        let mut i: usize = 0;
        while i < n
            invariant
                i <= n,
                n == self.dependencies.len(),
                n == old(self).dependencies.len(),
                self@ == (Model { dependencies: self.dependencies@, ..old(self)@ }),
                forall|j: int|
                    0 <= j < i ==> #[trigger] self.dependencies@[j] == (if revocable(
                        old(self).dependencies@[j],
                        upstream,
                    ) {
                        unsatisfied(old(self).dependencies@[j])
                    } else {
                        old(self).dependencies@[j]
                    }),
                forall|j: int|
                    i <= j < n ==> #[trigger] self.dependencies@[j] == old(self).dependencies@[j],
                forall|id: TaskId|
                    ids@.contains(id) <==> exists|k: int|
                        0 <= k < i && (#[trigger] old(self)@.dependencies[k]).task == id
                            && revocable(old(self)@.dependencies[k], upstream)
                            && old(self)@.dependencies[k].satisfied is Some,
            decreases n - i,
        {
            let d = self.dependencies[i];
            let ghost before = ids@;
            if d.upstream == upstream && d.condition == DependencyCondition::ResultReady
                && !d.bound {
                if d.satisfied.is_some() {
                    ids.push(d.task);
                    assert forall|id: TaskId| ids@.contains(id) <==> (before.contains(id) || id
                        == d.task) by {
                        if before.contains(id) {
                            let k = before.index_of(id);
                            assert(ids@[k] == id);
                        }
                        if id == d.task {
                            assert(ids@[before.len() as int] == id);
                        }
                    }
                }
                self.dependencies.set(i, DependencyRow { satisfied: None, snapshot: None, ..d });
            }
            assert forall|id: TaskId|
                ids@.contains(id) <==> exists|k: int|
                    0 <= k < i + 1 && (#[trigger] old(self)@.dependencies[k]).task == id
                        && revocable(old(self)@.dependencies[k], upstream)
                        && old(self)@.dependencies[k].satisfied is Some by {
                assert(old(self)@.dependencies[i as int] == d);
                if before.contains(id) {
                    let k = choose|k: int|
                        0 <= k < i && (#[trigger] old(self)@.dependencies[k]).task == id
                            && revocable(old(self)@.dependencies[k], upstream)
                            && old(self)@.dependencies[k].satisfied is Some;
                    assert(old(self)@.dependencies[k].task == id);
                    assert(ids@.contains(id));
                }
                if ids@.contains(id) && !before.contains(id) {
                    assert(id == d.task);
                    assert(old(self)@.dependencies[i as int].task == id);
                }
            }
            i += 1;
        }
        assert(ids@.to_set() =~= deprived(old(self)@, upstream));
        self.flip(
            &ids,
            TaskSchedulingState::Ready,
            TaskSchedulingState::Blocked,
            TransitionReason::UpstreamCorrection,
        );
        assert(self@.tasks =~= revoke(old(self)@, upstream).tasks);
        assert(self@.dependencies =~= revoke(old(self)@, upstream).dependencies);
    }
}

} // verus!

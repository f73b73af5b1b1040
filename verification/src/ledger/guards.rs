//! What every command keeps: the lifecycle of Tasks and the guards of Workers and worktrees.
use vstd::prelude::*;

use crate::contract::{DependencyCondition, RepositoryAccess, TaskState};
use crate::identity::TaskId;
use crate::ledger::cascade_laws::{evolves, unique_tasks};
use crate::ledger::frames::{fades, transition_frame, wanes};
use crate::ledger::propagation::{revoke, satisfy_downstream, satisfy_edges};
use crate::ledger::steps::{add_hold, push_hold, release_lease, released, transition};
use crate::ledger::{active_state, held, is_active_hold_on, is_task, Model};
use crate::rows::{DependencyRow, HoldReason, LeaseRow, TaskRow, WorktreeKey};
use crate::select::first_where;

verus! {

// ---------------------------------------------------------------------------------------------
// The lifecycle
// ---------------------------------------------------------------------------------------------

/// The steps of a Task's lifecycle.
pub open spec fn next_state(from: TaskState, to: TaskState) -> bool {
    match from {
        TaskState::Queued => to == TaskState::Dispatching || to == TaskState::Cancelled,
        TaskState::Dispatching => to == TaskState::Working || to == TaskState::DeliveryUnknown || to
            == TaskState::Cancelling || to == TaskState::Failed,
        TaskState::Working => to == TaskState::Waiting || to == TaskState::Reviewing || to
            == TaskState::Cancelling || to == TaskState::Failed,
        TaskState::Waiting => to == TaskState::Working || to == TaskState::Reviewing || to
            == TaskState::Cancelling || to == TaskState::Failed,
        TaskState::Reviewing => to == TaskState::Working || to == TaskState::Approved || to
            == TaskState::Cancelling || to == TaskState::Failed,
        TaskState::Cancelling => to == TaskState::Cancelled || to == TaskState::Failed,
        TaskState::DeliveryUnknown => to == TaskState::Queued || to == TaskState::Cancelled || to
            == TaskState::Cancelling || to == TaskState::Failed,
        _ => false,
    }
}

/// What a Task keeps for life.
pub open spec fn same_task(a: TaskRow, b: TaskRow) -> bool {
    &&& a.id == b.id
    &&& a.worker == b.worker
    &&& a.related == b.related
    &&& a.role == b.role
    &&& a.policy == b.policy
    &&& a.preferred_session == b.preferred_session
    &&& a.access == b.access
    &&& a.worktree == b.worktree
    &&& a.revision <= b.revision <= a.revision + 1
}

/// A Task stays in its state or takes one step of the lifecycle.
pub open spec fn moves_on(a: TaskRow, b: TaskRow) -> bool {
    same_task(a, b) && (a.state == b.state || next_state(a.state, b.state))
}

/// Every Task stays or moves on; Tasks may be added.
pub open spec fn moves(a: Model, b: Model) -> bool {
    &&& a.tasks.len() <= b.tasks.len()
    &&& forall|i: int| 0 <= i < a.tasks.len() ==> moves_on(#[trigger] a.tasks[i], b.tasks[i])
}

/// No Task becomes active.
pub open spec fn rests(a: Model, b: Model) -> bool {
    forall|i: int|
        0 <= i < b.tasks.len() && active_state((#[trigger] b.tasks[i]).state) ==> i < a.tasks.len()
            && active_state(a.tasks[i].state)
}

/// No Task goes back into the queue.
pub open spec fn drains(a: Model, b: Model) -> bool {
    forall|i: int|
        0 <= i < a.tasks.len() && (#[trigger] b.tasks[i]).state == TaskState::Queued
            ==> a.tasks[i].state == TaskState::Queued
}

// ---------------------------------------------------------------------------------------------
// The guards
// ---------------------------------------------------------------------------------------------

/// A Worker owns at most one active Task.
pub open spec fn one_task_each(m: Model) -> bool {
    forall|i: int, j: int|
        0 <= i < m.tasks.len() && 0 <= j < m.tasks.len() && i != j && active_state(
            (#[trigger] m.tasks[i]).state,
        ) && active_state((#[trigger] m.tasks[j]).state) ==> m.tasks[i].worker != m.tasks[j].worker
}

/// A worktree has at most one lease.
pub open spec fn one_lease_each(m: Model) -> bool {
    forall|i: int, j: int|
        0 <= i < m.leases.len() && 0 <= j < m.leases.len() && i != j ==> (
        #[trigger] m.leases[i]).worktree != (#[trigger] m.leases[j]).worktree
}

/// The lease `l` is the one of Task `t` on its worktree.
pub open spec fn leases_to(l: LeaseRow, t: TaskRow) -> bool {
    l.worktree == t.worktree && l.task == t.id && !l.released
}

/// A Task that may write while it is active.
pub open spec fn writes(t: TaskRow) -> bool {
    active_state(t.state) && t.access == RepositoryAccess::Mutating
}

/// An active mutating Task has the lease of its worktree.
pub open spec fn leased(m: Model) -> bool {
    forall|i: int|
        0 <= i < m.tasks.len() && writes(#[trigger] m.tasks[i]) ==> exists|k: int|
            0 <= k < m.leases.len() && leases_to(#[trigger] m.leases[k], m.tasks[i])
}

/// A worktree has at most one Hold in force.
pub open spec fn one_hold_each(m: Model) -> bool {
    forall|i: int, j: int|
        0 <= i < m.holds.len() && 0 <= j < m.holds.len() && i != j && !(
        #[trigger] m.holds[i]).cleared && !(#[trigger] m.holds[j]).cleared
            ==> m.holds[i].worktree != m.holds[j].worktree
}

/// A satisfied edge has its Result's snapshot, and a bound edge is satisfied.
pub open spec fn frozen_edge(d: DependencyRow) -> bool {
    (d.satisfied is Some ==> d.snapshot is Some) && (d.bound ==> d.satisfied is Some)
}

pub open spec fn frozen(m: Model) -> bool {
    forall|k: int| 0 <= k < m.dependencies.len() ==> frozen_edge(#[trigger] m.dependencies[k])
}

/// What commands keep of Tasks, leases, Holds and edges.
pub open spec fn shielded(m: Model) -> bool {
    &&& unique_tasks(m)
    &&& one_task_each(m)
    &&& one_lease_each(m)
    &&& leased(m)
    &&& one_hold_each(m)
    &&& frozen(m)
}

/// At most one Session binding is in force for each Task.
pub open spec fn one_binding_each(m: Model) -> bool {
    forall|i: int, j: int|
        0 <= i < j < m.bindings.len() && !(#[trigger] m.bindings[i]).superseded && !(
        #[trigger] m.bindings[j]).superseded ==> m.bindings[i].task != m.bindings[j].task
}

/// What holds of the tables whatever commands are given.
pub open spec fn guarded(m: Model) -> bool {
    shielded(m) && one_binding_each(m)
}

/// Two active mutating Tasks never share a worktree.
pub proof fn writers_are_alone(m: Model, i: int, j: int)
    requires
        guarded(m),
        0 <= i < m.tasks.len(),
        0 <= j < m.tasks.len(),
        i != j,
        writes(m.tasks[i]),
        writes(m.tasks[j]),
    ensures
        m.tasks[i].worktree != m.tasks[j].worktree,
{
    let k = choose|k: int|
        0 <= k < m.leases.len() && leases_to(#[trigger] m.leases[k], m.tasks[i]);
    let l = choose|l: int|
        0 <= l < m.leases.len() && leases_to(#[trigger] m.leases[l], m.tasks[j]);
    if m.tasks[i].worktree == m.tasks[j].worktree {
        assert(k == l);
        assert(m.tasks[i].id == m.tasks[j].id);
        if i < j {
            assert(m.tasks[i].id != m.tasks[j].id);
        } else {
            assert(m.tasks[j].id != m.tasks[i].id);
        }
    }
}

// ---------------------------------------------------------------------------------------------
// Composition
// ---------------------------------------------------------------------------------------------

/// Which leases may go: those of a Task that does not write afterwards.
pub open spec fn frees(a: Model, b: Model, task: Option<TaskId>) -> bool {
    match task {
        None => b.leases == a.leases,
        Some(id) => b.leases == release_lease(a, id).leases && forall|i: int|
            0 <= i < b.tasks.len() && (#[trigger] b.tasks[i]).id == id ==> !writes(b.tasks[i]),
    }
}

/// A step under which no Task becomes active, that frees at most the leases of one Task that does
/// not write, keeps the guards.
pub proof fn resting_steps_keep(a: Model, b: Model, freed: Option<TaskId>)
    requires
        shielded(a),
        moves(a, b),
        rests(a, b),
        unique_tasks(b),
        frees(a, b, freed),
        one_hold_each(b),
        frozen(b),
    ensures
        shielded(b),
{
    assert forall|i: int, j: int|
        0 <= i < b.tasks.len() && 0 <= j < b.tasks.len() && i != j && active_state(
            (#[trigger] b.tasks[i]).state,
        ) && active_state((#[trigger] b.tasks[j]).state) implies b.tasks[i].worker
        != b.tasks[j].worker by {
        assert(moves_on(a.tasks[i], b.tasks[i]));
        assert(moves_on(a.tasks[j], b.tasks[j]));
    }
    assert forall|i: int| 0 <= i < b.tasks.len() && writes(#[trigger] b.tasks[i]) implies exists|k:
        int| 0 <= k < b.leases.len() && leases_to(#[trigger] b.leases[k], b.tasks[i]) by {
        assert(moves_on(a.tasks[i], b.tasks[i]));
        assert(writes(a.tasks[i]));
        let k = choose|k: int|
            0 <= k < a.leases.len() && leases_to(#[trigger] a.leases[k], a.tasks[i]);
        assert(leases_to(b.leases[k], b.tasks[i]));
    }
    assert forall|i: int, j: int|
        0 <= i < b.leases.len() && 0 <= j < b.leases.len() && i != j implies (
    #[trigger] b.leases[i]).worktree != (#[trigger] b.leases[j]).worktree by {
        assert(b.leases[i].worktree == a.leases[i].worktree);
        assert(b.leases[j].worktree == a.leases[j].worktree);
    }
}

/// Identities stay unique when Tasks move on and none is added.
pub proof fn moved_tasks_stay_unique(a: Model, b: Model)
    requires
        unique_tasks(a),
        moves(a, b),
        a.tasks.len() == b.tasks.len(),
    ensures
        unique_tasks(b),
{
    assert forall|i: int, j: int| 0 <= i < j < b.tasks.len() implies (#[trigger] b.tasks[i]).id != (
    #[trigger] b.tasks[j]).id by {
        assert(moves_on(a.tasks[i], b.tasks[i]));
        assert(moves_on(a.tasks[j], b.tasks[j]));
    }
}

/// A step after which what is left of the queue wanes.
pub proof fn waning_follows(a: Model, b: Model, c: Model)
    requires
        moves(a, b),
        rests(a, b),
        drains(a, b),
        a.tasks.len() == b.tasks.len(),
        wanes(b, c),
    ensures
        moves(a, c),
        rests(a, c),
        drains(a, c),
{
    assert forall|i: int| 0 <= i < a.tasks.len() implies moves_on(
        #[trigger] a.tasks[i],
        c.tasks[i],
    ) && (active_state(c.tasks[i].state) ==> active_state(a.tasks[i].state)) && (c.tasks[i].state
        == TaskState::Queued ==> a.tasks[i].state == TaskState::Queued) by {
        assert(moves_on(a.tasks[i], b.tasks[i]));
        assert(evolves(b.tasks[i], c.tasks[i]));
        if active_state(b.tasks[i].state) {
            assert(active_state(a.tasks[i].state));
        }
    }
}

/// Only scheduling changes.
pub open spec fn stands(a: Model, b: Model) -> bool {
    &&& a.tasks.len() == b.tasks.len()
    &&& forall|i: int|
        0 <= i < a.tasks.len() ==> (TaskRow {
            scheduling: a.tasks[i].scheduling,
            ..(#[trigger] b.tasks[i])
        }) == a.tasks[i]
}

pub proof fn standing_follows(a: Model, b: Model, c: Model)
    requires
        moves(a, b),
        rests(a, b),
        drains(a, b),
        a.tasks.len() == b.tasks.len(),
        stands(b, c),
    ensures
        moves(a, c),
        rests(a, c),
        drains(a, c),
{
    assert forall|i: int| 0 <= i < a.tasks.len() implies moves_on(
        #[trigger] a.tasks[i],
        c.tasks[i],
    ) && (active_state(c.tasks[i].state) ==> active_state(a.tasks[i].state)) && (c.tasks[i].state
        == TaskState::Queued ==> a.tasks[i].state == TaskState::Queued) by {
        assert(moves_on(a.tasks[i], b.tasks[i]));
        let t = TaskRow { scheduling: b.tasks[i].scheduling, ..c.tasks[i] };
        assert(t == b.tasks[i]);
        if active_state(b.tasks[i].state) {
            assert(active_state(a.tasks[i].state));
        }
    }
}

pub proof fn satisfaction_frame(
    m: Model,
    upstream: TaskId,
    condition: DependencyCondition,
    revision: u32,
)
    requires
        frozen(m),
    ensures
        stands(m, satisfy_downstream(m, upstream, condition, revision)),
        frozen(satisfy_downstream(m, upstream, condition, revision)),
        satisfy_downstream(m, upstream, condition, revision).leases == m.leases,
        satisfy_downstream(m, upstream, condition, revision).holds == m.holds,
{
    let satisfied = satisfy_edges(m, upstream, condition, revision);
    assert forall|k: int| 0 <= k < satisfied.dependencies.len() implies frozen_edge(
        #[trigger] satisfied.dependencies[k],
    ) by {
        assert(frozen_edge(m.dependencies[k]));
    }
}

pub proof fn revocation_frame(m: Model, upstream: TaskId)
    requires
        frozen(m),
    ensures
        stands(m, revoke(m, upstream)),
        frozen(revoke(m, upstream)),
        revoke(m, upstream).leases == m.leases,
        revoke(m, upstream).holds == m.holds,
{
    let after = revoke(m, upstream);
    assert forall|k: int| 0 <= k < after.dependencies.len() implies frozen_edge(
        #[trigger] after.dependencies[k],
    ) by {
        assert(frozen_edge(m.dependencies[k]));
    }
}

pub proof fn fading_keeps_frozen(a: Model, b: Model)
    requires
        frozen(a),
        fades(a, b),
    ensures
        frozen(b),
{
    assert forall|k: int| 0 <= k < b.dependencies.len() implies frozen_edge(
        #[trigger] b.dependencies[k],
    ) by {
        assert(frozen_edge(a.dependencies[k]));
    }
}

pub proof fn new_holds_stay_single(m: Model, worktree: WorktreeKey, task: TaskId, reason: HoldReason)
    requires
        one_hold_each(m),
    ensures
        one_hold_each(add_hold(m, worktree, task, reason)),
        !held(m, worktree) ==> one_hold_each(push_hold(m, worktree, task, reason)),
{
    if !held(m, worktree) {
        let after = push_hold(m, worktree, task, reason);
        assert forall|i: int, j: int|
            0 <= i < after.holds.len() && 0 <= j < after.holds.len() && i != j && !(
            #[trigger] after.holds[i]).cleared && !(#[trigger] after.holds[j]).cleared implies
        after.holds[i].worktree != after.holds[j].worktree by {
            if i < m.holds.len() {
                assert(!is_active_hold_on(worktree)(m.holds[i]));
            }
            if j < m.holds.len() {
                assert(!is_active_hold_on(worktree)(m.holds[j]));
            }
        }
    }
}

/// One transition that starts nothing and requeues nothing.
pub proof fn transition_moves(m: Model, id: TaskId, from: TaskState, to: TaskState, bump: bool)
    requires
        transition(m, id, from, to, bump) is Ok,
        next_state(from, to),
    ensures
        ({
            let after = transition(m, id, from, to, bump)->Ok_0;
            &&& moves(m, after)
            &&& after.tasks.len() == m.tasks.len()
            &&& to != TaskState::Queued ==> drains(m, after)
            &&& from != TaskState::Queued || to == TaskState::Cancelled ==> rests(m, after)
            &&& after.leases == m.leases
            &&& after.holds == m.holds
            &&& after.dependencies == m.dependencies
            &&& forall|i: int|
                0 <= i < m.tasks.len() && (#[trigger] after.tasks[i]).id == id && unique_tasks(m)
                    ==> after.tasks[i].state == to
        }),
{
    transition_frame(m, id, from, to, bump);
    let after = transition(m, id, from, to, bump)->Ok_0;
    let x = first_where(m.tasks, is_task(id))->0;
    assert forall|i: int|
        0 <= i < m.tasks.len() && (#[trigger] after.tasks[i]).id == id && unique_tasks(m) implies
    after.tasks[i].state == to by {
        if i != x {
            assert(m.tasks[i].id == id && m.tasks[x].id == id);
            if i < x {
                assert(m.tasks[i].id != m.tasks[x].id);
            } else {
                assert(m.tasks[x].id != m.tasks[i].id);
            }
        }
    }
}

/// A lawful step.
pub open spec fn lawful(a: Model, b: Model) -> bool {
    moves(a, b) && shielded(b)
}

/// A step that touches no Task, lease, Hold or edge.
pub open spec fn aside(a: Model, b: Model) -> bool {
    &&& b.tasks == a.tasks
    &&& b.leases == a.leases
    &&& b.holds == a.holds
    &&& b.dependencies == a.dependencies
}

pub proof fn aside_is_lawful(a: Model, b: Model)
    requires
        shielded(a),
        aside(a, b),
    ensures
        lawful(a, b),
{
    assert forall|i: int| 0 <= i < a.tasks.len() implies moves_on(
        #[trigger] a.tasks[i],
        b.tasks[i],
    ) by {}
    resting_steps_keep(a, b, None);
}

} // verus!

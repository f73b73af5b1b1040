//! How work ends: turns, cancellations, approvals, and what they leave to others.
use vstd::prelude::*;

use crate::contract::{
    DependencyCondition, HarnessTier, ObservationCheckpoint, RepositoryAccess, SupervisorEventKind,
    TaskSchedulingState, TaskState,
};
use crate::digest::digest_shaped;
use crate::error::{ErrorCategory, Refusal};
use crate::identity::{MessageId, TaskId};
use crate::ledger::{is_message, record_transition, record_transition_frame, Model};
use crate::ledger::cascade::cascade;
use crate::ledger::cascade_laws::evolves;
use crate::ledger::dependencies::{is_result, is_unmet_of, unmet};
use crate::ledger::evidence::{
    announce_hold, digested, is_digested, is_observation, is_observation_id, is_snapshot,
    observe_repository, observed, NewObservation,
};
use crate::ledger::frames::{cascade_frame, process_events_frame, transition_frame};
use crate::ledger::propagation::{
    awaits, deprived, revoke, satisfy_downstream, satisfy_edges, woken,
};
use crate::ledger::schedule_laws::{
    holds_are_found, on_hold, places_are_found, results_are_found, stands, stored, unstored,
};
use crate::ledger::settlement::{
    approve_task, approved, cancel_task, is_active_review_of, is_result_of_turn, is_supervisor,
    record_cancellation_completed, record_turn_completed, terminal,
};
use crate::ledger::steps::{add_hold, is_lease_of, transition};
use crate::rows::{
    AuthenticatedActor, DependencyRow, EventOrigin, HoldReason, LeaseRow, ResultRow, TaskRow,
    TextKey, TransitionReason,
};
use crate::select::{first_missing, first_says, first_where, last_found, some_where, update_where};

verus! {

// ---------------------------------------------------------------------------------------------
// Edges
// ---------------------------------------------------------------------------------------------

/// A Task offers a revision, of which the Result stands at a place, to the edges that wait for it.
///
/// Every open edge to the Task with that condition is satisfied by the revision and its snapshot;
/// every other edge stays. A queued Task behind such an edge is ready once all its edges are
/// satisfied; every other Task but the one at `except` stays.
pub open spec fn passes_on(
    a: Model,
    b: Model,
    upstream: TaskId,
    condition: DependencyCondition,
    revision: u32,
    r: int,
    except: int,
) -> bool {
    &&& b.dependencies.len() == a.dependencies.len()
    &&& b.tasks.len() == a.tasks.len()
    &&& forall|k: int|
        0 <= k < a.dependencies.len() ==> #[trigger] b.dependencies[k] == if a.dependencies[k].upstream
            == upstream && a.dependencies[k].condition == condition
            && a.dependencies[k].satisfied is None {
            DependencyRow {
                satisfied: Some(revision),
                snapshot: Some(a.results[r].snapshot),
                ..a.dependencies[k]
            }
        } else {
            a.dependencies[k]
        }
    &&& forall|j: int|
        0 <= j < a.tasks.len() && j != except ==> #[trigger] b.tasks[j] == if a.tasks[j].state
            == TaskState::Queued && a.tasks[j].scheduling == TaskSchedulingState::Blocked && (
        exists|k: int|
            0 <= k < a.dependencies.len() && (#[trigger] a.dependencies[k]).task == a.tasks[j].id
                && a.dependencies[k].upstream == upstream && a.dependencies[k].condition
                == condition) && (forall|k: int|
            0 <= k < b.dependencies.len() && (#[trigger] b.dependencies[k]).task == a.tasks[j].id
                ==> b.dependencies[k].satisfied is Some) {
            TaskRow { scheduling: TaskSchedulingState::Ready, ..a.tasks[j] }
        } else {
            a.tasks[j]
        }
}

/// A Task takes its Result back: every edge that waits for it, and is not bound, is open again, and
/// a queued Task that was ready by such an edge is blocked. Everything else stays.
pub open spec fn takes_back(a: Model, b: Model, upstream: TaskId) -> bool {
    &&& b.dependencies.len() == a.dependencies.len()
    &&& b.tasks.len() == a.tasks.len()
    &&& forall|k: int|
        0 <= k < a.dependencies.len() ==> #[trigger] b.dependencies[k] == if a.dependencies[k].upstream
            == upstream && a.dependencies[k].condition == DependencyCondition::ResultReady
            && !a.dependencies[k].bound {
            DependencyRow { satisfied: None, snapshot: None, ..a.dependencies[k] }
        } else {
            a.dependencies[k]
        }
    &&& forall|j: int|
        0 <= j < a.tasks.len() ==> #[trigger] b.tasks[j] == if a.tasks[j].state == TaskState::Queued
            && a.tasks[j].scheduling == TaskSchedulingState::Ready && (exists|k: int|
            0 <= k < a.dependencies.len() && (#[trigger] a.dependencies[k]).task == a.tasks[j].id
                && a.dependencies[k].upstream == upstream && a.dependencies[k].condition
                == DependencyCondition::ResultReady && !a.dependencies[k].bound
                && a.dependencies[k].satisfied is Some) {
            TaskRow { scheduling: TaskSchedulingState::Blocked, ..a.tasks[j] }
        } else {
            a.tasks[j]
        }
}

pub(crate) proof fn satisfaction_passes_on(
    m: Model,
    upstream: TaskId,
    condition: DependencyCondition,
    revision: u32,
    r: int,
)
    requires
        stored(m, upstream, revision, r),
    ensures
        passes_on(
            m,
            satisfy_downstream(m, upstream, condition, revision),
            upstream,
            condition,
            revision,
            r,
            -1,
        ),
{
    results_are_found(m, upstream, revision, r);
    let s = satisfy_edges(m, upstream, condition, revision);
    let b = satisfy_downstream(m, upstream, condition, revision);
    assert(b.dependencies == s.dependencies);
    assert forall|j: int| 0 <= j < m.tasks.len() implies #[trigger] b.tasks[j] == if m.tasks[j].state
        == TaskState::Queued && m.tasks[j].scheduling == TaskSchedulingState::Blocked && (
    exists|k: int|
        0 <= k < m.dependencies.len() && (#[trigger] m.dependencies[k]).task == m.tasks[j].id
            && m.dependencies[k].upstream == upstream && m.dependencies[k].condition == condition)
        && (forall|k: int|
        0 <= k < b.dependencies.len() && (#[trigger] b.dependencies[k]).task == m.tasks[j].id
            ==> b.dependencies[k].satisfied is Some) {
        TaskRow { scheduling: TaskSchedulingState::Ready, ..m.tasks[j] }
    } else {
        m.tasks[j]
    } by {
        let id = m.tasks[j].id;
        let all = forall|k: int|
            0 <= k < b.dependencies.len() && (#[trigger] b.dependencies[k]).task == id
                ==> b.dependencies[k].satisfied is Some;
        let any = exists|k: int|
            0 <= k < m.dependencies.len() && (#[trigger] m.dependencies[k]).task == id
                && m.dependencies[k].upstream == upstream && m.dependencies[k].condition
                == condition;
        assert(all == !unmet(s, id)) by {
            if unmet(s, id) {
                let k = choose|k: int|
                    0 <= k < s.dependencies.len() && is_unmet_of(id)(#[trigger] s.dependencies[k]);
                assert(b.dependencies[k].task == id && b.dependencies[k].satisfied is None);
            }
            if !all {
                let k = choose|k: int|
                    0 <= k < b.dependencies.len() && (#[trigger] b.dependencies[k]).task == id
                        && b.dependencies[k].satisfied is None;
                assert(is_unmet_of(id)(s.dependencies[k]));
            }
        }
        let wakes = exists|i: int|
            0 <= i < s.dependencies.len() && (#[trigger] s.dependencies[i]).task == id && awaits(
                s.dependencies[i],
                upstream,
                condition,
            );
        assert(any == wakes) by {
            if any {
                let k = choose|k: int|
                    0 <= k < m.dependencies.len() && (#[trigger] m.dependencies[k]).task == id
                        && m.dependencies[k].upstream == upstream && m.dependencies[k].condition
                        == condition;
                assert(s.dependencies[k].task == id && awaits(
                    s.dependencies[k],
                    upstream,
                    condition,
                ));
            }
            if wakes {
                let k = choose|i: int|
                    0 <= i < s.dependencies.len() && (#[trigger] s.dependencies[i]).task == id
                        && awaits(s.dependencies[i], upstream, condition);
                assert(m.dependencies[k].task == id && m.dependencies[k].upstream == upstream
                    && m.dependencies[k].condition == condition);
            }
        }
        assert(woken(s, upstream, condition).contains(id) == (all && any));
    }
}

proof fn revocation_takes_back(m: Model, upstream: TaskId)
    ensures
        takes_back(m, revoke(m, upstream), upstream),
        revoke(m, upstream) == (Model {
            tasks: revoke(m, upstream).tasks,
            dependencies: revoke(m, upstream).dependencies,
            scheduling: revoke(m, upstream).scheduling,
            ..m
        }),
{
    let b = revoke(m, upstream);
    assert forall|j: int| 0 <= j < m.tasks.len() implies deprived(m, upstream).contains(
        (#[trigger] b.tasks[j]).id,
    ) == (exists|k: int|
        0 <= k < m.dependencies.len() && (#[trigger] m.dependencies[k]).task == m.tasks[j].id
            && m.dependencies[k].upstream == upstream && m.dependencies[k].condition
            == DependencyCondition::ResultReady && !m.dependencies[k].bound
            && m.dependencies[k].satisfied is Some) by {
        let id = m.tasks[j].id;
        if deprived(m, upstream).contains(id) {
            let k = choose|i: int|
                0 <= i < m.dependencies.len() && (#[trigger] m.dependencies[i]).task == id
                    && m.dependencies[i].upstream == upstream && m.dependencies[i].condition
                    == DependencyCondition::ResultReady && !m.dependencies[i].bound
                    && m.dependencies[i].satisfied is Some;
            assert(m.dependencies[k].task == id);
        }
    }
}

// ---------------------------------------------------------------------------------------------
// Approval
// ---------------------------------------------------------------------------------------------

/// A Task under way that reviews another: in one of the six states in which it occupies its Worker.
pub open spec fn reviews(t: TaskRow, task: TaskId) -> bool {
    t.related == Some(task) && (t.state == TaskState::Dispatching || t.state == TaskState::Working
        || t.state == TaskState::Waiting || t.state == TaskState::Reviewing || t.state
        == TaskState::Cancelling || t.state == TaskState::DeliveryUnknown)
}

/// The newest Approval Observation of a Task stands at a place.
pub open spec fn looked_last(
    m: Model,
    task: TaskId,
    checkpoint: ObservationCheckpoint,
    o: int,
) -> bool {
    &&& 0 <= o < m.observations.len()
    &&& m.observations[o].task == task
    &&& m.observations[o].checkpoint == checkpoint
    &&& forall|j: int|
        o < j < m.observations.len() ==> (#[trigger] m.observations[j]).task != task
            || m.observations[j].checkpoint != checkpoint
}

/// A Task is approved exactly where it is under review in the revision named, its worktree is not
/// held, no review of it is under way, and its newest approval evidence, which the repository still
/// agrees with, shows nothing out of scope and bears the digest named. Anything else is refused.
pub proof fn results_are_approved_on_fresh_evidence(
    m: Model,
    task: TaskId,
    i: int,
    o: int,
    revision: u32,
    digest: Seq<char>,
    key: TextKey,
)
    requires
        stands(m, task, i),
        looked_last(m, task, ObservationCheckpoint::Approval, o),
        exists|s: int|
            0 <= s < m.snapshots.len() && (#[trigger] m.snapshots[s]).task == task
                && m.snapshots[s].checkpoint == ObservationCheckpoint::Approval,
        digest_shaped(digest),
        m.observations[o].digest == key,
    ensures
        ({
            let t = m.tasks[i];
            let fits = t.state == TaskState::Reviewing && t.revision == revision && !on_hold(m, t)
                && !m.observations[o].out_of_scope && forall|j: int|
                0 <= j < m.tasks.len() ==> !reviews(#[trigger] m.tasks[j], task);
            let answer = approve_task(m, task, revision, digest, key, None);
            &&& fits ==> answer.1 is Ok && answer.0.tasks[i] == (TaskRow {
                state: TaskState::Approved,
                approved_revision: Some(revision),
                approval: Some(m.observations[o].id),
                ..t
            })
            &&& !fits ==> answer.1 is Err
            &&& !fits && !m.observations[o].out_of_scope ==> answer.0 == m
            &&& t.state == TaskState::Reviewing && !m.observations[o].out_of_scope && t.revision
                != revision ==> answer.1->Err_0.category == ErrorCategory::Conflict
            &&& t.state != TaskState::Reviewing && !m.observations[o].out_of_scope
                ==> answer.1->Err_0.category == ErrorCategory::InvalidState
            &&& m.observations[o].out_of_scope && (t.access == RepositoryAccess::Mutating
                || t.related is Some) ==> answer.1->Err_0.category
                == ErrorCategory::RepositoryBlocked && on_hold(answer.0, t)
        }),
{
    let t = m.tasks[i];
    let answer = approve_task(m, task, revision, digest, key, None);
    places_are_found(m, task, i);
    holds_are_found(m, t);
    holds_are_found(answer.0, t);
    let s = choose|s: int|
        0 <= s < m.snapshots.len() && (#[trigger] m.snapshots[s]).task == task
            && m.snapshots[s].checkpoint == ObservationCheckpoint::Approval;
    assert(is_snapshot(task, ObservationCheckpoint::Approval)(m.snapshots[s]));
    first_says(m.snapshots, is_snapshot(task, ObservationCheckpoint::Approval));
    last_found(m.observations, is_observation(task, ObservationCheckpoint::Approval), o);
    last_found(m.observations, is_digested(task, ObservationCheckpoint::Approval, key), o);
    let active = is_active_review_of(task);
    if some_where(m.tasks, active) {
        let j = choose|j: int| 0 <= j < m.tasks.len() && active(#[trigger] m.tasks[j]);
        assert(reviews(m.tasks[j], task));
    }
    if exists|j: int| 0 <= j < m.tasks.len() && reviews(#[trigger] m.tasks[j], task) {
        let j = choose|j: int| 0 <= j < m.tasks.len() && reviews(#[trigger] m.tasks[j], task);
        assert(active(m.tasks[j]));
    }
    if answer.1 is Ok {
        approval_effects(m, task, i, revision, key);
    }
    if m.observations[o].out_of_scope && (t.access == RepositoryAccess::Mutating
        || t.related is Some) {
        let owner = if t.access == RepositoryAccess::Mutating {
            t.id
        } else {
            t.related->0
        };
        if !on_hold(m, t) {
            let h = answer.0.holds[m.holds.len() as int];
            assert(h.worktree == t.worktree && !h.cleared);
        } else {
            let k = choose|h: int|
                0 <= h < m.holds.len() && (#[trigger] m.holds[h]).worktree == t.worktree
                    && !m.holds[h].cleared;
            assert(answer.0.holds[k] == m.holds[k]);
        }
    }
}

pub(crate) proof fn approval_effects(m: Model, task: TaskId, i: int, revision: u32, key: TextKey)
    requires
        stands(m, task, i),
    ensures
        ({
            let after = approved(m, task, revision, key);
            &&& after.tasks[i].id == task
            &&& after.tasks[i].state == TaskState::Approved
            &&& after.tasks[i].approved_revision == Some(revision)
            &&& after.tasks[i] == (TaskRow {
                state: TaskState::Approved,
                approved_revision: Some(revision),
                approval: after.tasks[i].approval,
                ..m.tasks[i]
            })
            &&& after.tasks[i].approval == digested(
                m,
                task,
                ObservationCheckpoint::Approval,
                key,
            )
            &&& after.holds == m.holds
            &&& after.results == m.results
            &&& after.leases.len() == m.leases.len()
            &&& forall|l: int|
                0 <= l < m.leases.len() ==> #[trigger] after.leases[l] == if m.leases[l].task
                    == task {
                    LeaseRow { released: true, ..m.leases[l] }
                } else {
                    m.leases[l]
                }
            &&& forall|r: int| #[trigger]
                stored(m, task, revision, r) ==> passes_on(
                    m,
                    after,
                    task,
                    DependencyCondition::Approved,
                    revision,
                    r,
                    i,
                )
            &&& unstored(m, task, revision) ==> after.dependencies == m.dependencies
        }),
{
    places_are_found(m, task, i);
    let row = TaskRow {
        state: TaskState::Approved,
        approved_revision: Some(revision),
        approval: digested(
            m,
            task,
            ObservationCheckpoint::Approval,
            key,
        ),
        ..m.tasks[i]
    };
    let set = Model { tasks: m.tasks.update(i, row), ..m };
    record_transition_frame(
        set,
        task,
        TaskState::Reviewing,
        TaskState::Approved,
        TransitionReason::Plain,
    );
    let moved = record_transition(
        set,
        task,
        TaskState::Reviewing,
        TaskState::Approved,
        TransitionReason::Plain,
    );
    let offered = satisfy_downstream(moved, task, DependencyCondition::Approved, revision);
    process_events_frame(
        offered,
        SupervisorEventKind::ResultReady,
        task,
        Some(revision),
        offered.events.len(),
    );
    let after = approved(m, task, revision, key);
    assert(offered.tasks[i] == row);
    assert forall|r: int| #[trigger] stored(m, task, revision, r) implies passes_on(
        m,
        after,
        task,
        DependencyCondition::Approved,
        revision,
        r,
        i,
    ) by {
        assert(stored(moved, task, revision, r));
        satisfaction_passes_on(moved, task, DependencyCondition::Approved, revision, r);
    }
    if unstored(m, task, revision) {
        assert(unstored(moved, task, revision));
        results_are_found(moved, task, revision, 0);
    }
    assert forall|l: int| 0 <= l < m.leases.len() implies #[trigger] after.leases[l] == if m.leases[l].task
        == task {
        LeaseRow { released: true, ..m.leases[l] }
    } else {
        m.leases[l]
    } by {}
}

/// An approval gives back every lease of the Task, satisfies each open edge that waits for the
/// approval by the approved revision and its snapshot, and readies the Tasks behind those edges
/// that wait for nothing else. Tasks, edges and leases of others stay.
pub proof fn approvals_let_waiting_tasks_start(
    m: Model,
    task: TaskId,
    i: int,
    r: int,
    revision: u32,
    digest: Seq<char>,
    key: TextKey,
    drift: Option<Refusal>,
)
    requires
        stands(m, task, i),
        stored(m, task, revision, r),
        approve_task(m, task, revision, digest, key, drift).1 is Ok,
    ensures
        ({
            let after = approve_task(m, task, revision, digest, key, drift).0;
            &&& drift is None
            &&& passes_on(m, after, task, DependencyCondition::Approved, revision, r, i)
            &&& after.leases.len() == m.leases.len()
            &&& forall|l: int|
                0 <= l < m.leases.len() ==> (#[trigger] after.leases[l]).released == (
                m.leases[l].released || m.leases[l].task == task)
            &&& after.holds == m.holds
        }),
{
    approval_effects(m, task, i, revision, key);
}

// ---------------------------------------------------------------------------------------------
// Turns
// ---------------------------------------------------------------------------------------------

/// A Result of the present revision of a Task was recorded in a native turn.
pub open spec fn answered_in(m: Model, t: TaskRow, turn: TextKey) -> bool {
    exists|r: int|
        0 <= r < m.results.len() && (#[trigger] m.results[r]).task == t.id && m.results[r].revision
            == t.revision && m.results[r].turn == turn
}

/// There is a baseline of a Task, and an identity for a new observation.
pub open spec fn observable(m: Model, task: TaskId, o: NewObservation) -> bool {
    &&& exists|s: int|
        0 <= s < m.snapshots.len() && (#[trigger] m.snapshots[s]).task == task
            && m.snapshots[s].checkpoint == ObservationCheckpoint::BeforeDispatch
    &&& forall|j: int| 0 <= j < m.observations.len() ==> (#[trigger] m.observations[j]).id != o.id
}

pub(crate) proof fn observing_says(m: Model, task: TaskId, o: NewObservation)
    requires
        observable(m, task, o),
    ensures
        !some_where(m.observations, is_observation_id(o.id)),
        first_where(
            m.snapshots,
            is_snapshot(task, ObservationCheckpoint::BeforeDispatch),
        ) is Some,
{
    let s = choose|s: int|
        0 <= s < m.snapshots.len() && (#[trigger] m.snapshots[s]).task == task
            && m.snapshots[s].checkpoint == ObservationCheckpoint::BeforeDispatch;
    assert(is_snapshot(task, ObservationCheckpoint::BeforeDispatch)(m.snapshots[s]));
    first_says(m.snapshots, is_snapshot(task, ObservationCheckpoint::BeforeDispatch));
}

proof fn answers_are_found(m: Model, t: TaskRow, turn: TextKey)
    ensures
        some_where(m.results, is_result_of_turn(t.id, t.revision, turn)) == answered_in(m, t, turn),
{
    let p = is_result_of_turn(t.id, t.revision, turn);
    if answered_in(m, t, turn) {
        let r = choose|r: int|
            0 <= r < m.results.len() && (#[trigger] m.results[r]).task == t.id
                && m.results[r].revision == t.revision && m.results[r].turn == turn;
        assert(p(m.results[r]));
    }
    if some_where(m.results, p) {
        let r = choose|r: int| 0 <= r < m.results.len() && p(#[trigger] m.results[r]);
        assert(m.results[r].task == t.id);
    }
}

/// Only the Worker of a Task reports its turns and the end of its cancellation: others are refused,
/// and nothing changes.
pub proof fn only_the_assigned_worker_reports(
    m: Model,
    actor: AuthenticatedActor,
    task: TaskId,
    i: int,
    turn: TextKey,
    succeeded: bool,
    captured: Result<NewObservation, Refusal>,
    message: MessageId,
)
    requires
        stands(m, task, i),
        actor.tier != HarnessTier::Worker || actor.id != m.tasks[i].worker,
    ensures
        ({
            let a = record_turn_completed(m, actor, task, turn, succeeded, captured, message);
            let b = record_cancellation_completed(m, actor, task, succeeded, captured);
            &&& a.0 == m
            &&& a.1 is Err
            &&& a.1->Err_0.category == ErrorCategory::Forbidden
            &&& b.0 == m
            &&& b.1 is Err
            &&& b.1->Err_0.category == ErrorCategory::Forbidden
        }),
{
    places_are_found(m, task, i);
}

/// A turn ends in review exactly where it succeeded and a Result of the present revision was
/// recorded in it; otherwise its Task fails. A Task that neither works nor waits keeps its state.
pub proof fn turns_end_in_review_or_failure(
    m: Model,
    actor: AuthenticatedActor,
    task: TaskId,
    i: int,
    turn: TextKey,
    succeeded: bool,
    o: NewObservation,
    message: MessageId,
)
    requires
        stands(m, task, i),
        actor.tier == HarnessTier::Worker,
        actor.id == m.tasks[i].worker,
        observable(m, task, o),
        exists|h: int|
            0 <= h < m.harnesses.len() && (#[trigger] m.harnesses[h]).tier
                == HarnessTier::Supervisor,
        forall|j: int| 0 <= j < m.messages.len() ==> (#[trigger] m.messages[j]).id != message,
    ensures
        ({
            let t = m.tasks[i];
            let open = t.state == TaskState::Working || t.state == TaskState::Waiting;
            let answer = record_turn_completed(m, actor, task, turn, succeeded, Ok(o), message);
            let reviewed = succeeded && answered_in(m, t, turn);
            let after = answer.0;
            &&& !open ==> answer.1 is Err && answer.1->Err_0.category
                == ErrorCategory::InvalidState && after.tasks == m.tasks && after.dependencies
                == m.dependencies && after.holds == m.holds
            &&& open && reviewed ==> answer.1 == Ok::<TaskState, Refusal>(TaskState::Reviewing)
                && after.tasks[i] == (TaskRow { state: TaskState::Reviewing, ..t })
            &&& open && !reviewed ==> answer.1 == Ok::<TaskState, Refusal>(TaskState::Failed)
                && after.tasks[i] == (TaskRow { state: TaskState::Failed, ..t })
            &&& open && t.access == RepositoryAccess::Mutating && (!reviewed || o.out_of_scope)
                ==> on_hold(after, t)
            &&& open && reviewed && !o.out_of_scope ==> after.holds == m.holds && forall|r: int|
             #[trigger]
                stored(m, task, t.revision, r) ==> passes_on(
                    m,
                    after,
                    task,
                    DependencyCondition::ResultReady,
                    t.revision,
                    r,
                    i,
                )
            &&& open && reviewed && o.out_of_scope ==> after.dependencies == m.dependencies
        }),
{
    let t = m.tasks[i];
    let checkpoint = if succeeded {
        ObservationCheckpoint::Result
    } else {
        ObservationCheckpoint::Failure
    };
    places_are_found(m, task, i);
    observing_says(m, task, o);
    let seen = observed(m, task, checkpoint, o);
    assert(seen.tasks == m.tasks && seen.results == m.results && seen.harnesses == m.harnesses
        && seen.messages == m.messages && seen.holds == m.holds && seen.dependencies
        == m.dependencies);
    let n = m.observations.len() as int;
    last_found(seen.observations, is_observation(task, checkpoint), n);
    answers_are_found(seen, t, turn);
    assert(answered_in(seen, t, turn) == answered_in(m, t, turn));
    let h = choose|h: int|
        0 <= h < m.harnesses.len() && (#[trigger] m.harnesses[h]).tier == HarnessTier::Supervisor;
    assert(is_supervisor()(m.harnesses[h]));
    first_says(m.harnesses, is_supervisor());
    first_missing(m.messages, is_message(message));
    first_says(seen.results, is_result_of_turn(t.id, t.revision, turn));
    let answer = record_turn_completed(m, actor, task, turn, succeeded, Ok(o), message);
    let after = answer.0;
    let open = t.state == TaskState::Working || t.state == TaskState::Waiting;
    let reviewed = succeeded && answered_in(m, t, turn);
    holds_are_found(after, t);
    if open && reviewed {
        let sealed = Model {
            results: update_where(
                seen.results,
                is_result(t.id, t.revision),
                |x: ResultRow| terminal(x),
            ),
            ..seen
        };
        transition_frame(sealed, task, t.state, TaskState::Reviewing, false);
        let moved = transition(sealed, task, t.state, TaskState::Reviewing, false)->Ok_0;
        holds_are_found(moved, t);
        if !o.out_of_scope {
            assert forall|r: int| #[trigger] stored(m, task, t.revision, r) implies passes_on(
                m,
                after,
                task,
                DependencyCondition::ResultReady,
                t.revision,
                r,
                i,
            ) by {
                assert(sealed.results[r].snapshot == m.results[r].snapshot);
                assert(stored(moved, task, t.revision, r)) by {
                    assert forall|j: int| 0 <= j < r implies (#[trigger] moved.results[j]).task
                        != task || moved.results[j].revision != t.revision by {
                        assert(m.results[j].task != task || m.results[j].revision != t.revision);
                    }
                }
                satisfaction_passes_on(
                    moved,
                    task,
                    DependencyCondition::ResultReady,
                    t.revision,
                    r,
                );
            }
        } else if t.access == RepositoryAccess::Mutating {
            holding_holds(moved, after, t);
        }
    }
    if open && !reviewed {
        transition_frame(seen, task, t.state, TaskState::Failed, false);
        let moved = transition(seen, task, t.state, TaskState::Failed, false)->Ok_0;
        cascade_frame(moved, task);
        let stopped = cascade(moved, task);
        assert(evolves(moved.tasks[i], stopped.tasks[i]));
        holds_are_found(stopped, t);
        if t.access == RepositoryAccess::Mutating {
            holding_holds(stopped, after, t);
        }
    }
}

/// A worktree that was held, or got a Hold, is held.
pub(crate) proof fn holding_holds(a: Model, b: Model, t: TaskRow)
    requires
        on_hold(a, t) ==> b.holds == a.holds,
        !on_hold(a, t) ==> b.holds.len() == a.holds.len() + 1 && b.holds.last().worktree
            == t.worktree && !b.holds.last().cleared,
    ensures
        on_hold(b, t),
{
    if on_hold(a, t) {
        let k = choose|h: int|
            0 <= h < a.holds.len() && (#[trigger] a.holds[h]).worktree == t.worktree
                && !a.holds[h].cleared;
        assert(b.holds[k] == a.holds[k]);
    } else {
        let k = a.holds.len() as int;
        assert(b.holds[k].worktree == t.worktree && !b.holds[k].cleared);
    }
}

/// A turn or a cancellation whose repository cannot be observed fails its Task, and a Task that
/// writes leaves its worktree held.
pub proof fn missing_evidence_fails_the_task(
    m: Model,
    actor: AuthenticatedActor,
    task: TaskId,
    i: int,
    turn: TextKey,
    succeeded: bool,
    why: Refusal,
    message: MessageId,
)
    requires
        stands(m, task, i),
        actor.tier == HarnessTier::Worker,
        actor.id == m.tasks[i].worker,
    ensures
        ({
            let t = m.tasks[i];
            let working = t.state == TaskState::Working || t.state == TaskState::Waiting;
            let cancelling = t.state == TaskState::Cancelling;
            let a = record_turn_completed(m, actor, task, turn, succeeded, Err(why), message);
            let b = record_cancellation_completed(m, actor, task, succeeded, Err(why));
            &&& working ==> a.1 == Ok::<TaskState, Refusal>(TaskState::Failed) && a.0.tasks[i] == (
            TaskRow { state: TaskState::Failed, ..t })
            &&& working && t.access == RepositoryAccess::Mutating ==> on_hold(a.0, t)
            &&& !working ==> a.0 == m && a.1 is Err && a.1->Err_0.category
                == ErrorCategory::InvalidState
            &&& cancelling ==> b.1 == Ok::<TaskState, Refusal>(TaskState::Failed) && b.0.tasks[i]
                == (TaskRow { state: TaskState::Failed, ..t })
            &&& cancelling && t.access == RepositoryAccess::Mutating ==> on_hold(b.0, t)
            &&& !cancelling ==> b.0 == m && b.1 is Err && b.1->Err_0.category
                == ErrorCategory::InvalidState
        }),
{
    let t = m.tasks[i];
    places_are_found(m, task, i);
    let turns = seq![TaskState::Working, TaskState::Waiting];
    let ends = seq![TaskState::Cancelling];
    assert(turns[0] == TaskState::Working && turns[1] == TaskState::Waiting);
    assert(ends[0] == TaskState::Cancelling);
    assert(turns.contains(t.state) == (t.state == TaskState::Working || t.state
        == TaskState::Waiting)) by {
        if t.state == TaskState::Working {
            assert(turns.contains(turns[0]));
        }
        if t.state == TaskState::Waiting {
            assert(turns.contains(turns[1]));
        }
    }
    assert(ends.contains(t.state) == (t.state == TaskState::Cancelling)) by {
        if t.state == TaskState::Cancelling {
            assert(ends.contains(ends[0]));
        }
    }
    let set = Model {
        tasks: m.tasks.update(i, TaskRow { state: TaskState::Failed, ..t }),
        ..m
    };
    record_transition_frame(
        set,
        task,
        t.state,
        TaskState::Failed,
        TransitionReason::MissingEvidence,
    );
    let moved = record_transition(
        set,
        task,
        t.state,
        TaskState::Failed,
        TransitionReason::MissingEvidence,
    );
    cascade_frame(moved, task);
    let stopped = cascade(moved, task);
    assert(evolves(moved.tasks[i], stopped.tasks[i]));
    holds_are_found(stopped, t);
    let a = record_turn_completed(m, actor, task, turn, succeeded, Err(why), message);
    let b = record_cancellation_completed(m, actor, task, succeeded, Err(why));
    if t.access == RepositoryAccess::Mutating {
        if turns.contains(t.state) {
            holding_holds(stopped, a.0, t);
        }
        if ends.contains(t.state) {
            holding_holds(stopped, b.0, t);
        }
    }
}

// ---------------------------------------------------------------------------------------------
// Cancellation
// ---------------------------------------------------------------------------------------------

/// A queued Task is cancelled at once, one that is under way is asked to stop, and one that ended
/// or is asked already keeps its state.
pub proof fn cancellation_depends_on_the_state(m: Model, task: TaskId, i: int)
    requires
        stands(m, task, i),
    ensures
        ({
            let t = m.tasks[i];
            let running = t.state == TaskState::Dispatching || t.state == TaskState::Working
                || t.state == TaskState::Waiting || t.state == TaskState::Reviewing || t.state
                == TaskState::DeliveryUnknown;
            let answer = cancel_task(m, task);
            &&& t.state == TaskState::Queued ==> answer is Ok && answer->Ok_0.1
                == TaskState::Cancelled && answer->Ok_0.0.tasks[i] == (TaskRow {
                state: TaskState::Cancelled,
                ..t
            })
            &&& running ==> answer is Ok && answer->Ok_0.1 == TaskState::Cancelling
                && answer->Ok_0.0.tasks == m.tasks.update(
                i,
                TaskRow { state: TaskState::Cancelling, ..t },
            ) && answer->Ok_0.0.leases == m.leases && answer->Ok_0.0.dependencies == m.dependencies
            &&& t.state != TaskState::Queued && !running ==> answer is Err
                && answer->Err_0.category == ErrorCategory::InvalidState
        }),
{
    let t = m.tasks[i];
    places_are_found(m, task, i);
    if t.state == TaskState::Queued {
        transition_frame(m, task, TaskState::Queued, TaskState::Cancelled, false);
        let moved = transition(m, task, TaskState::Queued, TaskState::Cancelled, false)->Ok_0;
        cascade_frame(moved, task);
        assert(evolves(moved.tasks[i], cascade(moved, task).tasks[i]));
    } else if cancel_task(m, task) is Ok {
        transition_frame(m, task, t.state, TaskState::Cancelling, false);
    }
}

/// A cancellation that is over ends its Task: as cancelled where it succeeded, else as failed. The
/// worktree of a Task that writes is held for the Supervisor, with a Hold that says which of the
/// two it was, and its lease stays; a reader gives its lease back.
pub proof fn cancellations_end_their_task(
    m: Model,
    actor: AuthenticatedActor,
    task: TaskId,
    i: int,
    succeeded: bool,
    o: NewObservation,
)
    requires
        stands(m, task, i),
        actor.tier == HarnessTier::Worker,
        actor.id == m.tasks[i].worker,
        observable(m, task, o),
        !on_hold(m, m.tasks[i]),
    ensures
        ({
            let t = m.tasks[i];
            let answer = record_cancellation_completed(m, actor, task, succeeded, Ok(o));
            let after = answer.0;
            let end = if succeeded {
                TaskState::Cancelled
            } else {
                TaskState::Failed
            };
            &&& t.state != TaskState::Cancelling ==> answer.1 is Err && answer.1->Err_0.category
                == ErrorCategory::InvalidState && after.tasks == m.tasks
            &&& t.state == TaskState::Cancelling ==> answer.1 == Ok::<TaskState, Refusal>(end)
                && after.tasks[i] == (TaskRow { state: end, ..t })
            &&& t.state == TaskState::Cancelling && t.access == RepositoryAccess::Mutating
                ==> after.leases == m.leases && after.holds.len() == m.holds.len() + 1 && ({
                let h = after.holds.last();
                h.worktree == t.worktree && h.task == task && !h.cleared && h.reason
                    == if succeeded {
                    HoldReason::CancelledAfterDispatch
                } else {
                    HoldReason::CancellationFailed
                }
            })
            &&& t.state == TaskState::Cancelling && t.access != RepositoryAccess::Mutating
                ==> after.holds == m.holds && forall|l: int|
                0 <= l < m.leases.len() && (#[trigger] m.leases[l]).task == task
                    ==> after.leases[l].released
        }),
{
    let t = m.tasks[i];
    let checkpoint = if succeeded {
        ObservationCheckpoint::Cancel
    } else {
        ObservationCheckpoint::Failure
    };
    places_are_found(m, task, i);
    observing_says(m, task, o);
    let seen = observed(m, task, checkpoint, o);
    holds_are_found(seen, t);
    assert(on_hold(seen, t) == on_hold(m, t));
    if t.state == TaskState::Cancelling {
        let end = if succeeded {
            TaskState::Cancelled
        } else {
            TaskState::Failed
        };
        transition_frame(seen, task, TaskState::Cancelling, end, false);
        let moved = transition(seen, task, TaskState::Cancelling, end, false)->Ok_0;
        cascade_frame(moved, task);
        let stopped = cascade(moved, task);
        assert(evolves(moved.tasks[i], stopped.tasks[i]));
        let after = record_cancellation_completed(m, actor, task, succeeded, Ok(o)).0;
        assert forall|l: int|
            0 <= l < m.leases.len() && (#[trigger] m.leases[l]).task == task && t.access
                != RepositoryAccess::Mutating implies after.leases[l].released by {
            assert(is_lease_of(task)(stopped.leases[l]) == !stopped.leases[l].released);
        }
    }
}

/// Where the Supervisor's evidence on a Task under review cannot be captured, the worktree is held,
/// and its Result is taken back from the edges that are not bound.
pub proof fn failed_checkpoints_take_results_back(
    m: Model,
    actor: AuthenticatedActor,
    task: TaskId,
    i: int,
    why: Refusal,
)
    requires
        stands(m, task, i),
        actor.tier == HarnessTier::Supervisor,
        m.tasks[i].state == TaskState::Reviewing,
        m.tasks[i].access == RepositoryAccess::Mutating,
    ensures
        ({
            let answer = observe_repository(
                m,
                actor,
                task,
                ObservationCheckpoint::Approval,
                Err(why),
            );
            &&& answer.1 == Err::<(), Refusal>(why)
            &&& on_hold(answer.0, m.tasks[i])
            &&& takes_back(m, answer.0, task)
        }),
{
    let t = m.tasks[i];
    places_are_found(m, task, i);
    holds_are_found(m, t);
    let after = observe_repository(m, actor, task, ObservationCheckpoint::Approval, Err(why)).0;
    let stopped = if on_hold(m, t) {
        m
    } else {
        announce_hold(
            add_hold(
                m,
                t.worktree,
                t.id,
                HoldReason::RepositoryCheckpointFailed,
            ),
            t.id,
            EventOrigin::Hold {
                task: t.id,
                reason: HoldReason::RepositoryCheckpointFailed,
            },
        )
    };
    revocation_takes_back(stopped, task);
    holding_holds(m, after, t);
}

} // verus!

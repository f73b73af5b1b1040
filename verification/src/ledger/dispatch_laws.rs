//! What a dispatch leaves behind, whether it succeeds or not.
use vstd::prelude::*;

use crate::contract::{
    Activity, NativeSessionHealth, ObservationCheckpoint, Presence, RepositoryAccess,
    SessionReusePolicy, TaskSchedulingState, TaskState,
};
use crate::error::{ErrorCategory, Refusal};
use crate::identity::{HarnessSessionId, MessageId, TaskId};
use crate::ledger::{
    find_task, is_active_lease_on, is_live_session, is_live_session_of, is_task, lease_owner,
    occupies, record_transition_frame, Model,
};
use crate::ledger::binding::{
    binding_question, bound, candidate_session, in_session, is_binding_of, is_binding_to,
    is_current_binding, occupies_session, session_holds,
};
use crate::ledger::dependencies::is_unmet_of;
use crate::ledger::dispatch::{
    bind, claim_next, commit_dispatch, dispatch_task, in_line, is_dependency_of, is_lease_row,
    is_online_of, is_root_message, is_usable_binding, needs_lease, preflight, take_lease,
    ClaimOutcome, DispatchView,
};
use crate::ledger::evidence::{is_snapshot, record_checkpoint};
use crate::ledger::guards::aside;
use crate::ledger::schedule_laws::{holds_are_found, on_hold, places_are_found, stands};
use crate::ledger::show_laws::{is_busy_with, queues};
use crate::rows::{
    AttemptState, DependencyRow, HarnessKey, SessionRow, StoredMessageKind, TaskRow,
    TransitionReason, WorktreeKey,
};
use crate::select::{
    count_where, first_found, first_missing, first_says, first_where, last_found, some_where,
    update_where,
};
use crate::text::has_prefix;

verus! {

/// The tables before the commitment of a Task: a Session bound, a baseline kept.
pub open spec fn prepared(m: Model, id: TaskId, f: DispatchView) -> Model {
    let q = binding_question(m, id, f.policy)->Ok_0;
    let requested = find_task(m, id)->0.policy;
    let chosen = bound(m, id, requested, f.policy, q, f.reusable, f.judged, f.code, f.words);
    record_checkpoint(chosen, id, ObservationCheckpoint::BeforeDispatch, f.captured)->Ok_0
}

/// A dispatch that succeeds is the commitment of a prepared Task, and one that is refused touches
/// no Task, lease, Hold or edge.
pub proof fn refused_dispatches_leave_tasks_alone(m: Model, id: TaskId, f: DispatchView)
    ensures
        match dispatch_task(m, id, f) {
            (next, Ok(message)) => aside(m, prepared(m, id, f)) && commit_dispatch(
                prepared(m, id, f),
                id,
                f.lock,
            ) == Ok::<(Model, MessageId), Refusal>((next, message)),
            (next, Err(_)) => aside(m, next),
        },
{
}

/// A dispatched Task was queued and ready, is committed to a Session, and has a baseline of its
/// worktree.
pub proof fn dispatched_tasks_have_a_baseline(m: Model, id: TaskId, f: DispatchView)
    requires
        dispatch_task(m, id, f).1 is Ok,
    ensures
        ({
            let next = dispatch_task(m, id, f).0;
            &&& find_task(m, id) is Some
            &&& find_task(m, id)->0.state == TaskState::Queued
            &&& find_task(m, id)->0.scheduling == TaskSchedulingState::Ready
            &&& find_task(next, id) is Some
            &&& find_task(next, id)->0.state == TaskState::Dispatching
            &&& find_task(next, id)->0.active_session is Some
            &&& some_where(next.snapshots, is_snapshot(id, ObservationCheckpoint::BeforeDispatch))
        }),
{
    let before = ObservationCheckpoint::BeforeDispatch;
    refused_dispatches_leave_tasks_alone(m, id, f);
    let seen = prepared(m, id, f);
    let next = dispatch_task(m, id, f).0;
    first_says(m.tasks, is_task(id));
    let i = first_where(m.tasks, is_task(id))->0;
    let t = m.tasks[i];
    let s = seen.bindings[first_where(
        seen.bindings,
        is_usable_binding(seen, id, t.worker),
    )->0].session;
    let taken = if needs_lease(seen, t) {
        take_lease(seen, t.worktree, t.id)
    } else {
        seen
    };
    let set = Model {
        dependencies: update_where(
            seen.dependencies,
            is_dependency_of(t.id),
            |d: DependencyRow| bind(d),
        ),
        tasks: seen.tasks.update(
            i,
            TaskRow { state: TaskState::Dispatching, active_session: Some(s), ..t },
        ),
        ..taken
    };
    record_transition_frame(
        set,
        t.id,
        TaskState::Queued,
        TaskState::Dispatching,
        TransitionReason::Plain,
    );
    assert(next.tasks == set.tasks && next.snapshots == seen.snapshots);
    first_found(next.tasks, is_task(id), i);
    let q = binding_question(m, id, f.policy)->Ok_0;
    let chosen = bound(m, id, t.policy, f.policy, q, f.reusable, f.judged, f.code, f.words);
    first_says(chosen.snapshots, is_snapshot(id, before));
    match first_where(chosen.snapshots, is_snapshot(id, before)) {
        Some(k) => {
            assert(is_snapshot(id, before)(next.snapshots[k]));
        },
        None => {
            assert(is_snapshot(id, before)(next.snapshots[next.snapshots.len() - 1]));
        },
    }
}

// ---------------------------------------------------------------------------------------------
// Who is dispatched
// ---------------------------------------------------------------------------------------------

/// An online Session of a Worker that has not ended.
pub open spec fn is_online(s: SessionRow, worker: HarnessKey) -> bool {
    s.harness == worker && !s.ended && s.presence == Presence::Online
}

/// The lease in force on a worktree stands at a place.
pub open spec fn leased(m: Model, worktree: WorktreeKey, l: int) -> bool {
    &&& 0 <= l < m.leases.len()
    &&& m.leases[l].worktree == worktree
    &&& !m.leases[l].released
    &&& forall|j: int|
        0 <= j < l ==> (#[trigger] m.leases[j]).worktree != worktree || m.leases[j].released
}

/// No lease is in force on a worktree.
pub open spec fn unleased(m: Model, worktree: WorktreeKey) -> bool {
    forall|l: int|
        0 <= l < m.leases.len() ==> (#[trigger] m.leases[l]).worktree != worktree
            || m.leases[l].released
}

proof fn leases_are_found(m: Model, worktree: WorktreeKey, l: int)
    ensures
        leased(m, worktree, l) ==> lease_owner(m, worktree) == Some(m.leases[l].task),
        unleased(m, worktree) ==> lease_owner(m, worktree) is None,
{
    if leased(m, worktree, l) {
        first_found(m.leases, is_active_lease_on(worktree), l);
    }
    if unleased(m, worktree) {
        first_missing(m.leases, is_active_lease_on(worktree));
    }
}

proof fn lines_are_found(m: Model, i: int, worker: HarnessKey)
    requires
        0 <= i <= m.tasks.len(),
    ensures
        some_where(m.tasks.take(i), in_line(worker)) == (exists|j: int|
            0 <= j < i && queues(#[trigger] m.tasks[j], worker)),
{
    let before = m.tasks.take(i);
    if some_where(before, in_line(worker)) {
        let j = choose|j: int| 0 <= j < before.len() && in_line(worker)(#[trigger] before[j]);
        assert(queues(m.tasks[j], worker));
    }
    if exists|j: int| 0 <= j < i && queues(#[trigger] m.tasks[j], worker) {
        let j = choose|j: int| 0 <= j < i && queues(#[trigger] m.tasks[j], worker);
        assert(in_line(worker)(before[j]));
    }
}

proof fn others_are_found(m: Model, worker: HarnessKey, except: Option<TaskId>)
    ensures
        some_where(m.tasks, occupies(worker, except)) == (exists|j: int|
            0 <= j < m.tasks.len() && except != Some((#[trigger] m.tasks[j]).id) && is_busy_with(
                m.tasks[j],
                worker,
            )),
{
    let p = occupies(worker, except);
    if some_where(m.tasks, p) {
        let j = choose|j: int| 0 <= j < m.tasks.len() && p(#[trigger] m.tasks[j]);
        assert(except != Some(m.tasks[j].id) && is_busy_with(m.tasks[j], worker));
    }
    if exists|j: int|
        0 <= j < m.tasks.len() && except != Some((#[trigger] m.tasks[j]).id) && is_busy_with(
            m.tasks[j],
            worker,
        ) {
        let j = choose|j: int|
            0 <= j < m.tasks.len() && except != Some((#[trigger] m.tasks[j]).id) && is_busy_with(
                m.tasks[j],
                worker,
            );
        assert(p(m.tasks[j]));
    }
}

proof fn counted_rows_exist(s: Seq<SessionRow>, p: spec_fn(SessionRow) -> bool)
    ensures
        count_where(s, p) > 0 ==> some_where(s, p),
        count_where(s, p) == 0 ==> !some_where(s, p),
    decreases s.len(),
{
    if s.len() > 0 {
        let t = s.drop_last();
        counted_rows_exist(t, p);
        if some_where(t, p) {
            let j = choose|j: int| 0 <= j < t.len() && p(#[trigger] t[j]);
            assert(p(s[j]));
        }
        if p(s.last()) {
            assert(p(s[s.len() - 1]));
        }
        if count_where(s, p) == 0 && some_where(s, p) {
            let j = choose|j: int| 0 <= j < s.len() && p(#[trigger] s[j]);
            assert(p(t[j]));
        }
    }
}

/// Why a Task is not dispatched, by the first obstacle: it is not queued, its edges are open, an
/// earlier Task of its Worker is ready, the Worker is not online, the Worker is busy with another
/// Task, its worktree is held, or its worktree is leased: to another Task where it writes, and to a
/// Task that is not under review, or that it does not relate to, where it reads. Nothing changes.
pub proof fn obstacles_refuse_dispatch(m: Model, id: TaskId, i: int, l: int, u: int, f: DispatchView)
    requires
        stands(m, id, i),
    ensures
        ({
            let t = m.tasks[i];
            let answer = dispatch_task(m, id, f);
            let queued = t.state == TaskState::Queued;
            let ready = queued && t.scheduling == TaskSchedulingState::Ready;
            let overtaken = exists|j: int| 0 <= j < i && queues(#[trigger] m.tasks[j], t.worker);
            let offline = forall|s: int|
                0 <= s < m.sessions.len() ==> !is_online(#[trigger] m.sessions[s], t.worker);
            let online = exists|s: int| count_where(m.sessions, is_online_of(t.worker)) == 1 && 0 <= s
                < m.sessions.len() && is_online(#[trigger] m.sessions[s], t.worker);
            let busy = exists|j: int|
                0 <= j < m.tasks.len() && id != (#[trigger] m.tasks[j]).id && is_busy_with(
                    m.tasks[j],
                    t.worker,
                );
            let free = ready && !overtaken && online && !busy;
            &&& !queued ==> refuses(m, answer, ErrorCategory::InvalidState)
            &&& queued && !ready ==> refuses(m, answer, ErrorCategory::InvalidState)
            &&& ready && overtaken ==> refuses(m, answer, ErrorCategory::Conflict)
            &&& ready && !overtaken && offline ==> refuses(m, answer, ErrorCategory::TargetOffline)
            &&& ready && !overtaken && online && busy ==> refuses(m, answer, ErrorCategory::Conflict)
            &&& free && on_hold(m, t) ==> refuses(m, answer, ErrorCategory::RepositoryBlocked)
            &&& free && leased(m, t.worktree, l) && stands(m, m.leases[l].task, u) && t.access
                == RepositoryAccess::Mutating && m.leases[l].task != id ==> refuses(
                m,
                answer,
                ErrorCategory::RepositoryBlocked,
            )
            &&& free && leased(m, t.worktree, l) && stands(m, m.leases[l].task, u) && t.access
                != RepositoryAccess::Mutating && (t.related != Some(m.leases[l].task)
                || m.tasks[u].state != TaskState::Reviewing) ==> refuses(
                m,
                answer,
                ErrorCategory::RepositoryBlocked,
            )
        }),
{
    let t = m.tasks[i];
    places_are_found(m, id, i);
    holds_are_found(m, t);
    lines_are_found(m, i, t.worker);
    others_are_found(m, t.worker, Some(id));
    leases_are_found(m, t.worktree, l);
    let online = is_online_of(t.worker);
    counted_rows_exist(m.sessions, online);
    if some_where(m.sessions, online) {
        let s = choose|s: int| 0 <= s < m.sessions.len() && online(#[trigger] m.sessions[s]);
        assert(is_online(m.sessions[s], t.worker));
    }
    if leased(m, t.worktree, l) && stands(m, m.leases[l].task, u) {
        places_are_found(m, m.leases[l].task, u);
    }
}

/// A refusal of a category that changes nothing.
pub open spec fn refuses<T>(
    m: Model,
    answer: (Model, Result<T, Refusal>),
    category: ErrorCategory,
) -> bool {
    answer.0 == m && answer.1 is Err && answer.1->Err_0.category == category
}

/// A dispatched Task was first in the line of an online Worker that was busy with nothing else, and
/// no Hold lay on its worktree. It has the root Message of the Task delivered to the Session that
/// it is committed to, which is online, idle and the Worker's; its edges are satisfied and bound;
/// and a Task that writes has the lease of its worktree, which no other Task had.
pub proof fn dispatched_tasks_were_due(m: Model, id: TaskId, i: int, f: DispatchView)
    requires
        stands(m, id, i),
        dispatch_task(m, id, f).1 is Ok,
    ensures
        ({
            let t = m.tasks[i];
            let (after, answer) = dispatch_task(m, id, f);
            let a = after.attempts.last();
            &&& forall|j: int| 0 <= j < i ==> !queues(#[trigger] m.tasks[j], t.worker)
            &&& forall|j: int|
                0 <= j < m.tasks.len() && id != (#[trigger] m.tasks[j]).id ==> !is_busy_with(
                    m.tasks[j],
                    t.worker,
                )
            &&& !on_hold(m, t)
            &&& after.tasks == m.tasks.update(
                i,
                TaskRow {
                    state: TaskState::Dispatching,
                    active_session: after.tasks[i].active_session,
                    ..t
                },
            )
            &&& after.attempts.len() == m.attempts.len() + 1
            &&& a.message == answer->Ok_0
            &&& a.session == after.tasks[i].active_session
            &&& a.state == AttemptState::Dispatching
            &&& exists|x: int|
                0 <= x < m.messages.len() && (#[trigger] m.messages[x]).id == answer->Ok_0
                    && m.messages[x].task == Some(id) && m.messages[x].kind
                    == StoredMessageKind::Task
            &&& exists|s: int|
                {
                    &&& 0 <= s < m.sessions.len()
                    &&& a.session == Some((#[trigger] m.sessions[s]).id)
                    &&& is_online(m.sessions[s], t.worker)
                    &&& m.sessions[s].activity == Activity::Idle
                }
            &&& after.dependencies.len() == m.dependencies.len()
            &&& forall|k: int|
                0 <= k < m.dependencies.len() ==> #[trigger] after.dependencies[k]
                    == if m.dependencies[k].task == id {
                    DependencyRow { bound: true, ..m.dependencies[k] }
                } else {
                    m.dependencies[k]
                }
            &&& forall|k: int|
                0 <= k < m.dependencies.len() && (#[trigger] m.dependencies[k]).task == id
                    ==> m.dependencies[k].satisfied is Some
            &&& t.access == RepositoryAccess::Mutating ==> exists|l: int|
                0 <= l < after.leases.len() && (#[trigger] after.leases[l]).worktree == t.worktree
                    && after.leases[l].task == id && !after.leases[l].released
            &&& t.access != RepositoryAccess::Mutating ==> after.leases == m.leases
            &&& forall|l: int| #[trigger]
                leased(m, t.worktree, l) && t.access == RepositoryAccess::Mutating
                    ==> m.leases[l].task == id
            &&& forall|l: int, u: int|
                #[trigger] leased(m, t.worktree, l) && t.access != RepositoryAccess::Mutating
                    && #[trigger] stands(m, m.leases[l].task, u) ==> t.related == Some(
                    m.leases[l].task,
                ) && m.tasks[u].state == TaskState::Reviewing
        }),
{
    let t = m.tasks[i];
    refused_dispatches_leave_tasks_alone(m, id, f);
    let seen = prepared(m, id, f);
    places_are_found(m, id, i);
    holds_are_found(m, t);
    lines_are_found(m, i, t.worker);
    others_are_found(m, t.worker, Some(id));
    assert(seen.attempts == m.attempts && seen.messages == m.messages && seen.sessions
        == m.sessions);
    first_says(seen.messages, is_root_message(id));
    first_says(seen.bindings, is_usable_binding(seen, id, t.worker));
    let k = first_where(seen.bindings, is_usable_binding(seen, id, t.worker))->0;
    let s = seen.bindings[k].session;
    first_says(seen.sessions, is_live_session(s));
    let at = first_where(seen.sessions, is_live_session(s))->0;
    assert(m.sessions[at].id == s && is_online(m.sessions[at], t.worker));
    let x = first_where(seen.messages, is_root_message(id))->0;
    assert(is_root_message(id)(m.messages[x]));
    let taken = if needs_lease(seen, t) {
        take_lease(seen, t.worktree, t.id)
    } else {
        seen
    };
    let set = Model {
        dependencies: update_where(
            seen.dependencies,
            is_dependency_of(t.id),
            |d: DependencyRow| bind(d),
        ),
        tasks: seen.tasks.update(
            i,
            TaskRow { state: TaskState::Dispatching, active_session: Some(s), ..t },
        ),
        ..taken
    };
    record_transition_frame(
        set,
        t.id,
        TaskState::Queued,
        TaskState::Dispatching,
        TransitionReason::Plain,
    );
    let after = dispatch_task(m, id, f).0;
    assert(after.leases == taken.leases);
    assert(after.tasks == set.tasks);
    assert(after.dependencies == set.dependencies);
    assert forall|d: int|
        0 <= d < m.dependencies.len() && (#[trigger] m.dependencies[d]).task == id implies
    m.dependencies[d].satisfied is Some by {
        assert(is_unmet_of(id)(seen.dependencies[d]) == (m.dependencies[d].satisfied is None));
    }
    first_says(seen.leases, is_lease_row(t.worktree));
    first_says(seen.leases, is_active_lease_on(t.worktree));
    if t.access == RepositoryAccess::Mutating {
        let l = if needs_lease(seen, t) {
            match first_where(seen.leases, is_lease_row(t.worktree)) {
                Some(l) => l,
                None => seen.leases.len() as int,
            }
        } else {
            first_where(seen.leases, is_active_lease_on(t.worktree))->0
        };
        assert(after.leases[l].worktree == t.worktree && after.leases[l].task == id
            && !after.leases[l].released);
    }
    assert forall|l: int| #[trigger] leased(m, t.worktree, l) && t.access
        == RepositoryAccess::Mutating implies m.leases[l].task == id by {
        leases_are_found(m, t.worktree, l);
        assert(lease_owner(seen, t.worktree) == lease_owner(m, t.worktree));
    }
    assert forall|l: int, u: int|
        #[trigger] leased(m, t.worktree, l) && t.access != RepositoryAccess::Mutating
            && #[trigger] stands(m, m.leases[l].task, u) implies t.related == Some(
        m.leases[l].task,
    ) && m.tasks[u].state == TaskState::Reviewing by {
        leases_are_found(m, t.worktree, l);
        places_are_found(m, m.leases[l].task, u);
    }
}

/// A Worker that asks for work gets the first Task of its line, and nothing while it is busy or its
/// line is empty. What only time or another Session can cure is no failure; everything else is told
/// as it came.
pub proof fn claims_take_the_head_of_the_line(
    m: Model,
    worker: HarnessKey,
    session: HarnessSessionId,
    i: int,
    f: DispatchView,
)
    ensures
        ({
            let answer = claim_next(m, worker, session, f);
            let busy = exists|j: int|
                0 <= j < m.tasks.len() && is_busy_with(#[trigger] m.tasks[j], worker);
            let empty = forall|j: int|
                0 <= j < m.tasks.len() ==> !queues(#[trigger] m.tasks[j], worker);
            let head = 0 <= i < m.tasks.len() && queues(m.tasks[i], worker) && forall|j: int|
                0 <= j < i ==> !queues(#[trigger] m.tasks[j], worker);
            let dispatch = dispatch_task(m, m.tasks[i].id, f);
            &&& busy || empty ==> answer == (
                m,
                Ok::<ClaimOutcome, Refusal>(ClaimOutcome::NoTaskAvailable),
            )
            &&& !busy && head && dispatch.1 is Ok ==> answer == (
                dispatch.0,
                Ok::<ClaimOutcome, Refusal>(
                    ClaimOutcome::Dispatching {
                        task: m.tasks[i].id,
                        message: dispatch.1->Ok_0,
                    },
                ),
            )
            &&& !busy && head && dispatch.1 is Err ==> ({
                let e = dispatch.1->Err_0;
                let chosen = has_prefix(e.message, "Session selection blocked:"@);
                &&& e.category == ErrorCategory::RepositoryBlocked ==> answer == (
                    dispatch.0,
                    Ok::<ClaimOutcome, Refusal>(ClaimOutcome::NoTaskAvailable),
                )
                &&& e.category == ErrorCategory::TargetOffline && !chosen ==> answer == (
                    dispatch.0,
                    Ok::<ClaimOutcome, Refusal>(ClaimOutcome::NoTaskAvailable),
                )
                &&& e.category == ErrorCategory::TargetOffline && chosen ==> answer == (
                    dispatch.0,
                    Ok::<ClaimOutcome, Refusal>(
                        ClaimOutcome::RotationRequired { task: m.tasks[i].id },
                    ),
                )
                &&& e.category == ErrorCategory::InvalidState && chosen ==> answer.1 == Ok::<
                    ClaimOutcome,
                    Refusal,
                >(ClaimOutcome::NoTaskAvailable) || answer.1 == Ok::<ClaimOutcome, Refusal>(
                    ClaimOutcome::CompactionRequired { task: m.tasks[i].id },
                )
                &&& e.category == ErrorCategory::Conflict || e.category == ErrorCategory::NotFound
                    || e.category == ErrorCategory::StorageFailure || e.category
                    == ErrorCategory::Forbidden || (e.category == ErrorCategory::InvalidState
                    && !chosen) ==> answer == (dispatch.0, Err::<ClaimOutcome, Refusal>(e))
            })
        }),
{
    others_are_found(m, worker, None);
    let line = in_line(worker);
    first_says(m.tasks, line);
    if 0 <= i < m.tasks.len() && queues(m.tasks[i], worker) && (forall|j: int|
        0 <= j < i ==> !queues(#[trigger] m.tasks[j], worker)) {
        assert forall|j: int| 0 <= j < i implies !line(#[trigger] m.tasks[j]) by {
            assert(!queues(m.tasks[j], worker));
        }
        first_found(m.tasks, line, i);
    }
    if forall|j: int| 0 <= j < m.tasks.len() ==> !queues(#[trigger] m.tasks[j], worker) {
        assert forall|j: int| 0 <= j < m.tasks.len() implies !line(#[trigger] m.tasks[j]) by {
            assert(!queues(m.tasks[j], worker));
        }
        first_missing(m.tasks, line);
    }
    if exists|j: int| 0 <= j < m.tasks.len() && is_busy_with(#[trigger] m.tasks[j], worker) {
        let j = choose|j: int|
            0 <= j < m.tasks.len() && is_busy_with(#[trigger] m.tasks[j], worker);
        assert(None::<TaskId> != Some(m.tasks[j].id) && is_busy_with(m.tasks[j], worker));
    }
}

// ---------------------------------------------------------------------------------------------
// Which Session is considered
// ---------------------------------------------------------------------------------------------

/// A binding in force of a Task stands at a place.
pub open spec fn binds(m: Model, id: TaskId, b: int) -> bool {
    &&& 0 <= b < m.bindings.len()
    &&& m.bindings[b].task == id
    &&& !m.bindings[b].superseded
    &&& forall|j: int|
        0 <= j < b ==> (#[trigger] m.bindings[j]).task != id || m.bindings[j].superseded
}

/// A Task has no binding in force.
pub open spec fn unbound(m: Model, id: TaskId) -> bool {
    forall|j: int|
        0 <= j < m.bindings.len() ==> (#[trigger] m.bindings[j]).task != id
            || m.bindings[j].superseded
}

/// The last binding of a Task stands at a place.
pub open spec fn bound_last(m: Model, id: TaskId, b: int) -> bool {
    &&& 0 <= b < m.bindings.len()
    &&& m.bindings[b].task == id
    &&& forall|j: int| b < j < m.bindings.len() ==> (#[trigger] m.bindings[j]).task != id
}

/// A Task stays with the Session that it is bound to; else it prefers the one it names; else,
/// unless a fresh one is wanted, the one that its related Task was last bound to; else its Worker's
/// newest.
pub proof fn sessions_are_chosen_in_turn(
    m: Model,
    id: TaskId,
    i: int,
    b: int,
    s: int,
    policy: SessionReusePolicy,
)
    requires
        stands(m, id, i),
        binding_question(m, id, policy) is Ok,
    ensures
        ({
            let t = m.tasks[i];
            let q = binding_question(m, id, policy)->Ok_0;
            let chosen = q.candidate.session_id;
            let related = t.related is Some && bound_last(m, t.related->0, b);
            let newest = 0 <= s < m.sessions.len() && m.sessions[s].harness == t.worker
                && !m.sessions[s].ended && forall|j: int|
                s < j < m.sessions.len() ==> (#[trigger] m.sessions[j]).harness != t.worker
                    || m.sessions[j].ended;
            &&& binds(m, id, b) ==> q.existing && chosen == m.bindings[b].session
            &&& unbound(m, id) ==> !q.existing
            &&& unbound(m, id) && t.preferred_session is Some ==> chosen == t.preferred_session->0
            &&& unbound(m, id) && t.preferred_session is None && related && policy
                != SessionReusePolicy::Fresh ==> chosen == m.bindings[b].session
            &&& unbound(m, id) && t.preferred_session is None && (policy
                == SessionReusePolicy::Fresh || t.related is None) && newest ==> chosen
                == m.sessions[s].id
            &&& q.compatibility_only == (q.existing || (policy == SessionReusePolicy::Fresh
                && !q.candidate.previously_bound))
            &&& exists|j: int|
                0 <= j < m.sessions.len() && (#[trigger] m.sessions[j]).id == chosen
                    && !m.sessions[j].ended
        }),
{
    let t = m.tasks[i];
    places_are_found(m, id, i);
    if binds(m, id, b) {
        first_found(m.bindings, is_current_binding(id), b);
    }
    if unbound(m, id) {
        first_missing(m.bindings, is_current_binding(id));
    }
    if t.related is Some && bound_last(m, t.related->0, b) {
        last_found(m.bindings, is_binding_of(t.related->0), b);
    }
    if 0 <= s < m.sessions.len() && m.sessions[s].harness == t.worker && !m.sessions[s].ended && (
    forall|j: int|
        s < j < m.sessions.len() ==> (#[trigger] m.sessions[j]).harness != t.worker
            || m.sessions[j].ended) {
        last_found(m.sessions, is_live_session_of(t.worker), s);
    }
    let chosen = candidate_session(m, t, policy)->0;
    first_says(m.sessions, is_live_session(chosen));
    let j = first_where(m.sessions, is_live_session(chosen))->0;
    assert(m.sessions[j].id == chosen && !m.sessions[j].ended);
}

/// A Session in one state of its Tasks.
pub open spec fn has_task_in(m: Model, session: HarnessSessionId, state: TaskState) -> bool {
    exists|j: int|
        0 <= j < m.tasks.len() && (#[trigger] m.tasks[j]).active_session == Some(session)
            && m.tasks[j].state == state
}

proof fn session_tasks_are_found(m: Model, session: HarnessSessionId, state: TaskState)
    ensures
        some_where(m.tasks, in_session(session, state)) == has_task_in(m, session, state),
{
    let p = in_session(session, state);
    if some_where(m.tasks, p) {
        let j = choose|j: int| 0 <= j < m.tasks.len() && p(#[trigger] m.tasks[j]);
        assert(m.tasks[j].active_session == Some(session));
    }
    if has_task_in(m, session, state) {
        let j = choose|j: int|
            0 <= j < m.tasks.len() && (#[trigger] m.tasks[j]).active_session == Some(session)
                && m.tasks[j].state == state;
        assert(p(m.tasks[j]));
    }
}

/// A Hold in force belongs to a Task of a Session.
pub open spec fn has_hold(m: Model, session: HarnessSessionId) -> bool {
    exists|h: int, k: int|
        {
            &&& 0 <= h < m.holds.len()
            &&& 0 <= k < m.tasks.len()
            &&& !m.holds[h].cleared
            &&& (#[trigger] m.tasks[k]).id == (#[trigger] m.holds[h]).task
            &&& m.tasks[k].active_session == Some(session)
        }
}

proof fn session_holds_are_found(m: Model, session: HarnessSessionId)
    ensures
        (exists|h: int, k: int| session_holds(m, session, h, k)) == has_hold(m, session),
{
    if exists|h: int, k: int| session_holds(m, session, h, k) {
        let (h, k) = choose|h: int, k: int| session_holds(m, session, h, k);
        assert(m.tasks[k].id == m.holds[h].task);
    }
    if has_hold(m, session) {
        let (h, k) = choose|h: int, k: int|
            {
                &&& 0 <= h < m.holds.len()
                &&& 0 <= k < m.tasks.len()
                &&& !m.holds[h].cleared
                &&& (#[trigger] m.tasks[k]).id == (#[trigger] m.holds[h]).task
                &&& m.tasks[k].active_session == Some(session)
            };
        assert(session_holds(m, session, h, k));
    }
}

/// What is held against a Session: a Task that waits, is cancelled or whose delivery is in doubt in
/// it, another Task that occupies it, a Hold of one of its Tasks, and a native state that is
/// ambiguous; and what speaks for it: the Worker, profile, model and tool policy that the Task asks
/// for.
pub proof fn sessions_are_judged_by_their_tasks(
    m: Model,
    id: TaskId,
    i: int,
    s: int,
    policy: SessionReusePolicy,
)
    requires
        stands(m, id, i),
        binding_question(m, id, policy) is Ok,
        0 <= s < m.sessions.len(),
        !m.sessions[s].ended,
        m.sessions[s].id == binding_question(m, id, policy)->Ok_0.candidate.session_id,
        forall|j: int| 0 <= j < s ==> (#[trigger] m.sessions[j]).id != m.sessions[s].id,
    ensures
        ({
            let t = m.tasks[i];
            let row = m.sessions[s];
            let c = binding_question(m, id, policy)->Ok_0.candidate;
            &&& c.same_worker == (row.harness == t.worker)
            &&& c.same_launch_profile == (t.expected_profile == row.profile)
            &&& c.compatible_model == (t.expected_model == row.model)
            &&& c.same_tool_policy == (t.expected_tool_policy == if row.tool_policy is Some {
                row.tool_policy
            } else {
                row.profile
            })
            &&& c.has_unresolved_question == has_task_in(m, row.id, TaskState::Waiting)
            &&& c.has_delivery_unknown == has_task_in(m, row.id, TaskState::DeliveryUnknown)
            &&& c.has_unresolved_cancellation == has_task_in(m, row.id, TaskState::Cancelling)
            &&& c.has_active_task == (exists|j: int|
                0 <= j < m.tasks.len() && (#[trigger] m.tasks[j]).active_session == Some(row.id)
                    && m.tasks[j].id != id && is_busy_with(m.tasks[j], m.tasks[j].worker))
            &&& c.has_session_worktree_hold == has_hold(m, row.id)
            &&& c.native_protocol_unambiguous == (row.health != NativeSessionHealth::Ambiguous)
            &&& c.previously_bound == (exists|j: int|
                0 <= j < m.bindings.len() && (#[trigger] m.bindings[j]).session == row.id)
            &&& row.snapshot is Some ==> c.adapter == row.snapshot->0
        }),
{
    let t = m.tasks[i];
    let row = m.sessions[s];
    places_are_found(m, id, i);
    first_found(m.sessions, is_live_session(row.id), s);
    first_says(m.sessions, is_live_session(candidate_session(m, t, policy)->0));
    session_tasks_are_found(m, row.id, TaskState::Waiting);
    session_tasks_are_found(m, row.id, TaskState::DeliveryUnknown);
    session_tasks_are_found(m, row.id, TaskState::Cancelling);
    let c = binding_question(m, id, policy)->Ok_0.candidate;
    let p = occupies_session(row.id, id);
    if some_where(m.tasks, p) {
        let j = choose|j: int| 0 <= j < m.tasks.len() && p(#[trigger] m.tasks[j]);
        assert(m.tasks[j].active_session == Some(row.id) && m.tasks[j].id != id && is_busy_with(
            m.tasks[j],
            m.tasks[j].worker,
        ));
    }
    if exists|j: int|
        0 <= j < m.tasks.len() && (#[trigger] m.tasks[j]).active_session == Some(row.id)
            && m.tasks[j].id != id && is_busy_with(m.tasks[j], m.tasks[j].worker) {
        let j = choose|j: int|
            0 <= j < m.tasks.len() && (#[trigger] m.tasks[j]).active_session == Some(row.id)
                && m.tasks[j].id != id && is_busy_with(m.tasks[j], m.tasks[j].worker);
        assert(p(m.tasks[j]));
    }
    let to = is_binding_to(row.id);
    if some_where(m.bindings, to) {
        let j = choose|j: int| 0 <= j < m.bindings.len() && to(#[trigger] m.bindings[j]);
        assert(m.bindings[j].session == row.id);
    }
    if exists|j: int| 0 <= j < m.bindings.len() && (#[trigger] m.bindings[j]).session == row.id {
        let j = choose|j: int|
            0 <= j < m.bindings.len() && (#[trigger] m.bindings[j]).session == row.id;
        assert(to(m.bindings[j]));
    }
    session_holds_are_found(m, row.id);
}

/// A Session that cannot be used is given up, unless the Task requires it; one that can is bound,
/// unless it is already. The bindings of other Tasks stay.
pub proof fn unusable_sessions_are_given_up(m: Model, id: TaskId, i: int, f: DispatchView)
    requires
        stands(m, id, i),
        preflight(m, id) is None,
        binding_question(m, id, f.policy) is Ok,
        f.captured is Err,
    ensures
        ({
            let t = m.tasks[i];
            let (after, answer) = dispatch_task(m, id, f);
            let q = binding_question(m, id, f.policy)->Ok_0;
            &&& answer is Err
            &&& !f.reusable && t.policy != SessionReusePolicy::Required ==> unbound(after, id)
            &&& !f.reusable && t.policy == SessionReusePolicy::Required ==> after == m
                && answer->Err_0.category == ErrorCategory::InvalidState
            &&& !f.reusable && t.policy != SessionReusePolicy::Required
                && !q.candidate.previously_bound ==> answer->Err_0.category
                == ErrorCategory::InvalidState
            &&& !f.reusable && t.policy != SessionReusePolicy::Required
                && q.candidate.previously_bound ==> answer->Err_0.category
                == ErrorCategory::TargetOffline
            &&& f.reusable && q.existing ==> after == m
            &&& f.reusable && !q.existing ==> after.bindings.len() == m.bindings.len() + 1
                && after.bindings.last().task == id && after.bindings.last().session
                == q.candidate.session_id && !after.bindings.last().superseded
                && after.bindings.last().reused == q.candidate.previously_bound
                && after.bindings.last().requested == t.policy
            &&& forall|j: int|
                0 <= j < m.bindings.len() && m.bindings[j].task != id ==> #[trigger]
                after.bindings[j] == m.bindings[j]
        }),
{
    places_are_found(m, id, i);
    first_says(m.bindings, is_current_binding(id));
    let after = dispatch_task(m, id, f).0;
    let q = binding_question(m, id, f.policy)->Ok_0;
    if !f.reusable && m.tasks[i].policy != SessionReusePolicy::Required {
        assert forall|j: int| 0 <= j < after.bindings.len() implies (#[trigger]
        after.bindings[j]).task != id || after.bindings[j].superseded by {
            if !q.existing {
                assert(!is_current_binding(id)(m.bindings[j]));
            }
        }
    }
}

} // verus!

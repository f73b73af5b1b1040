//! How doubt is raised and settled: deliveries, Holds, events on their way to the Supervisor, and
//! watches over Tasks.
use vstd::prelude::*;

use crate::contract::{
    Activity, DependencyCondition, ObservationCheckpoint, Presence, RepositoryAccess,
    SupervisorEventDeliveryState, TaskState,
};
use crate::digest::digest_shaped;
use crate::error::{ErrorCategory, Refusal};
use crate::identity::{MessageId, SupervisorEventId, TaskId};
use crate::ledger::{is_attempt_of, is_event, is_live_session, is_message, is_session, Model};
use crate::ledger::attention::{reconcile_event, SupervisorEventResolution};
use crate::ledger::cascade::cascade;
use crate::ledger::cascade_laws::evolves;
use crate::ledger::events::{
    accept_event, claim_event, is_accepted_at, is_in_flight, is_pending, is_presented,
    is_same_observation, is_unsettled_of, mark_event_unknown, phase_kind, record_presentation,
    release_event, Acceptance, SupervisorPresentationPhase,
};
use crate::ledger::evidence::{is_digested, is_snapshot};
use crate::ledger::frames::{cascade_frame, transition_frame};
use crate::ledger::outcome_laws::{passes_on, satisfaction_passes_on};
use crate::ledger::propagation::satisfy_downstream;
use crate::ledger::reconcile::{
    clear_holds, clear_worktree_hold, doubted, is_active_hold_of, mark_delivery_unknown,
    resolve_delivery_unknown, DeliveryUnknownResolution,
};
use crate::ledger::schedule_laws::{holds_are_found, on_hold, places_are_found, stands, stored};
use crate::ledger::steps::transition;
use crate::rows::{
    AttemptRow, AttemptState, AuthenticatedActor, EventObservationKind, EventObservationRow,
    HoldReason, HoldRow, LeaseRow, TaskRow, TextKey, Wording,
};
use crate::select::{
    count_where, first_found, first_says, first_where, last_found, last_missing, last_where,
    some_where,
};
use crate::text::{blank, byte_count};

verus! {

// ---------------------------------------------------------------------------------------------
// Deliveries in doubt
// ---------------------------------------------------------------------------------------------

/// A Message is first found at a place.
pub open spec fn is_at(m: Model, id: MessageId, x: int) -> bool {
    &&& 0 <= x < m.messages.len()
    &&& m.messages[x].id == id
    &&& forall|j: int| 0 <= j < x ==> (#[trigger] m.messages[j]).id != id
}

/// The latest attempt at a Message stands at a place.
pub open spec fn tried_last(m: Model, id: MessageId, k: int) -> bool {
    &&& 0 <= k < m.attempts.len()
    &&& m.attempts[k].message == id
    &&& forall|j: int| k < j < m.attempts.len() ==> (#[trigger] m.attempts[j]).message != id
}

/// The recipient of a Task's root Message, while the Task is dispatched to it, may report that it
/// cannot tell whether the Message was taken: the attempt and the Task are in doubt, the Session of
/// the attempt has failed, and the worktree of a Task that writes is held. Others are refused, and
/// so is a report in any other state.
pub proof fn doubtful_deliveries_stop_their_task(
    m: Model,
    actor: AuthenticatedActor,
    id: MessageId,
    task: TaskId,
    x: int,
    k: int,
    i: int,
    diagnostic: Seq<char>,
    why: Wording,
)
    requires
        is_at(m, id, x),
        m.messages[x].task == Some(task),
        tried_last(m, id, k),
        stands(m, task, i),
        !on_hold(m, m.tasks[i]),
        1 <= byte_count(diagnostic) <= 4096,
    ensures
        ({
            let t = m.tasks[i];
            let own = m.messages[x].recipient == actor.id;
            let answer = mark_delivery_unknown(m, actor, id, diagnostic, why);
            let after = answer->Ok_0.0;
            &&& !own ==> answer is Err && answer->Err_0.category == ErrorCategory::Forbidden
            &&& own && t.state != TaskState::Dispatching ==> answer is Err
                && answer->Err_0.category == ErrorCategory::InvalidState
            &&& own && t.state == TaskState::Dispatching ==> {
                &&& answer is Ok
                &&& answer->Ok_0.1 == task
                &&& after.tasks == m.tasks.update(
                    i,
                    TaskRow { state: TaskState::DeliveryUnknown, ..t },
                )
                &&& after.attempts == m.attempts.update(
                    k,
                    AttemptRow {
                        state: AttemptState::Unknown,
                        wrote: true,
                        doubt: Some(why),
                        ..m.attempts[k]
                    },
                )
                &&& after.leases == m.leases
                &&& t.access == RepositoryAccess::Mutating ==> after.holds.len() == m.holds.len() + 1
                    && after.holds.last().worktree == t.worktree && after.holds.last().task == task
                    && !after.holds.last().cleared && after.holds.last().reason
                    == HoldReason::DeliveryUnknown
                &&& t.access != RepositoryAccess::Mutating ==> after.holds == m.holds
                &&& forall|s: int|
                    0 <= s < m.sessions.len() && m.attempts[k].session != Some(
                        (#[trigger] m.sessions[s]).id,
                    ) ==> after.sessions[s] == m.sessions[s]
                &&& forall|s: int|
                    {
                        &&& 0 <= s < m.sessions.len()
                        &&& m.attempts[k].session == Some((#[trigger] m.sessions[s]).id)
                        &&& !m.sessions[s].ended
                        &&& forall|j: int|
                            0 <= j < s ==> (#[trigger] m.sessions[j]).id != m.sessions[s].id
                    } ==> after.sessions[s].ended && after.sessions[s].presence == Presence::Failed
                        && after.sessions[s].activity == Activity::Failed
            }
        }),
{
    let t = m.tasks[i];
    places_are_found(m, task, i);
    holds_are_found(m, t);
    first_found(m.messages, is_message(id), x);
    last_found(m.attempts, is_attempt_of(id), k);
    let marked = doubted(m, id, why);
    if m.messages[x].recipient == actor.id && t.state == TaskState::Dispatching {
        transition_frame(marked, task, TaskState::Dispatching, TaskState::DeliveryUnknown, false);
        if let Some(session) = m.attempts[k].session {
            first_says(m.sessions, is_live_session(session));
            assert forall|s: int|
                {
                    &&& 0 <= s < m.sessions.len()
                    &&& m.attempts[k].session == Some((#[trigger] m.sessions[s]).id)
                    &&& !m.sessions[s].ended
                    &&& forall|j: int|
                        0 <= j < s ==> (#[trigger] m.sessions[j]).id != m.sessions[s].id
                } implies marked.sessions[s].ended && marked.sessions[s].presence
                == Presence::Failed && marked.sessions[s].activity == Activity::Failed by {
                first_found(m.sessions, is_live_session(session), s);
            }
        }
    }
}

/// The newest observation for the clearance of a Hold stands at a place, bears a digest, and there
/// is a checkpoint to compare with.
pub open spec fn looked_with(m: Model, task: TaskId, key: TextKey, o: int) -> bool {
    &&& 0 <= o < m.observations.len()
    &&& m.observations[o].task == task
    &&& m.observations[o].checkpoint == ObservationCheckpoint::HoldClear
    &&& m.observations[o].digest == key
    &&& forall|j: int|
        o < j < m.observations.len() ==> (#[trigger] m.observations[j]).task != task
            || m.observations[j].checkpoint != ObservationCheckpoint::HoldClear
            || m.observations[j].digest != key
    &&& exists|s: int|
        0 <= s < m.snapshots.len() && (#[trigger] m.snapshots[s]).task == task
            && m.snapshots[s].checkpoint == ObservationCheckpoint::HoldClear
}

/// No observation for the clearance of a Hold bears a digest.
pub open spec fn never_looked_with(m: Model, task: TaskId, key: TextKey) -> bool {
    forall|j: int|
        0 <= j < m.observations.len() ==> (#[trigger] m.observations[j]).task != task
            || m.observations[j].checkpoint != ObservationCheckpoint::HoldClear
            || m.observations[j].digest != key
}

proof fn looking_is_found(m: Model, task: TaskId, key: TextKey, o: int)
    ensures
        looked_with(m, task, key, o) ==> first_where(
            m.snapshots,
            is_snapshot(task, ObservationCheckpoint::HoldClear),
        ) is Some && last_where(
            m.observations,
            is_digested(task, ObservationCheckpoint::HoldClear, key),
        ) == Some(o),
        never_looked_with(m, task, key) ==> last_where(
            m.observations,
            is_digested(task, ObservationCheckpoint::HoldClear, key),
        ) is None,
{
    let p = is_snapshot(task, ObservationCheckpoint::HoldClear);
    let q = is_digested(task, ObservationCheckpoint::HoldClear, key);
    if looked_with(m, task, key, o) {
        let s = choose|s: int|
            0 <= s < m.snapshots.len() && (#[trigger] m.snapshots[s]).task == task
                && m.snapshots[s].checkpoint == ObservationCheckpoint::HoldClear;
        assert(p(m.snapshots[s]));
        first_says(m.snapshots, p);
        last_found(m.observations, q, o);
    }
    if never_looked_with(m, task, key) {
        last_missing(m.observations, q);
    }
}

/// A note that says something.
pub open spec fn is_note(note: Seq<char>) -> bool {
    !blank(note) && byte_count(note) <= 4096
}

/// The Holds of a Task that are in force are cleared with the observation and the note; other Holds
/// stay.
pub open spec fn lifts(a: Model, b: Model, task: TaskId, o: int, note: TextKey) -> bool {
    &&& b.holds.len() == a.holds.len()
    &&& forall|h: int|
        0 <= h < a.holds.len() ==> #[trigger] b.holds[h] == if a.holds[h].task == task
            && !a.holds[h].cleared {
            HoldRow {
                cleared: true,
                observation: Some(a.observations[o].id),
                note: Some(note),
                ..a.holds[h]
            }
        } else {
            a.holds[h]
        }
}

/// The leases of a Task are given back; other leases stay.
pub open spec fn gives_back(a: Model, b: Model, task: TaskId) -> bool {
    &&& b.leases.len() == a.leases.len()
    &&& forall|l: int|
        0 <= l < a.leases.len() ==> #[trigger] b.leases[l] == if a.leases[l].task == task {
            LeaseRow { released: true, ..a.leases[l] }
        } else {
            a.leases[l]
        }
}

/// A delivery in doubt is settled on evidence that bears the digest named: the Task is put back in
/// line or cancelled, as asked, and its Holds are lifted. The lease goes back where the Task is
/// cancelled or only reads, and stays with a Task that writes and is put back in line.
pub proof fn doubtful_deliveries_are_settled_as_asked(
    m: Model,
    task: TaskId,
    i: int,
    o: int,
    cancel: bool,
    digest: Seq<char>,
    key: TextKey,
    note: Seq<char>,
    note_key: TextKey,
)
    requires
        stands(m, task, i),
        digest_shaped(digest),
        looked_with(m, task, key, o),
    ensures
        ({
            let t = m.tasks[i];
            let resolution = if cancel {
                DeliveryUnknownResolution::Cancel
            } else {
                DeliveryUnknownResolution::Requeue
            };
            let end = if cancel {
                TaskState::Cancelled
            } else {
                TaskState::Queued
            };
            let answer = resolve_delivery_unknown(
                m,
                task,
                resolution,
                digest,
                key,
                note,
                note_key,
                None,
            );
            let after = answer->Ok_0.0;
            &&& !is_note(note) ==> answer is Err && answer->Err_0.category
                == ErrorCategory::InvalidInput
            &&& is_note(note) && t.state != TaskState::DeliveryUnknown ==> answer is Err
                && answer->Err_0.category == ErrorCategory::InvalidState
            &&& is_note(note) && t.state == TaskState::DeliveryUnknown ==> {
                &&& answer is Ok
                &&& answer->Ok_0.1 == end
                &&& after.tasks[i].state == end
                &&& after.tasks[i].id == task
                &&& after.tasks[i].revision == t.revision
                &&& !cancel ==> after.tasks == m.tasks.update(i, TaskRow { state: end, ..t })
                    && after.dependencies == m.dependencies
                &&& lifts(m, after, task, o, note_key)
                &&& cancel || t.access == RepositoryAccess::ReadOnly ==> gives_back(m, after, task)
                &&& !cancel && t.access != RepositoryAccess::ReadOnly ==> after.leases == m.leases
            }
        }),
{
    let t = m.tasks[i];
    places_are_found(m, task, i);
    looking_is_found(m, task, key, o);
    let end = if cancel {
        TaskState::Cancelled
    } else {
        TaskState::Queued
    };
    if t.state == TaskState::DeliveryUnknown {
        transition_frame(m, task, TaskState::DeliveryUnknown, end, false);
        let moved = transition(m, task, TaskState::DeliveryUnknown, end, false)->Ok_0;
        cascade_frame(moved, task);
        assert(evolves(moved.tasks[i], cascade(moved, task).tasks[i]));
    }
}

/// Evidence that bears another digest settles nothing.
pub proof fn doubt_is_not_settled_on_other_evidence(
    m: Model,
    task: TaskId,
    resolution: DeliveryUnknownResolution,
    digest: Seq<char>,
    key: TextKey,
    note: Seq<char>,
    note_key: TextKey,
    drift: Option<Refusal>,
)
    requires
        !digest_shaped(digest) || never_looked_with(m, task, key) || drift is Some,
    ensures
        resolve_delivery_unknown(m, task, resolution, digest, key, note, note_key, drift) is Err,
        clear_worktree_hold(m, task, digest, key, note, note_key, drift) is Err,
{
    looking_is_found(m, task, key, 0);
}

/// The one Hold in force of a Task stands at a place.
pub open spec fn sole_hold(m: Model, task: TaskId, h: int) -> bool {
    &&& 0 <= h < m.holds.len()
    &&& m.holds[h].task == task
    &&& !m.holds[h].cleared
    &&& forall|j: int|
        0 <= j < m.holds.len() && j != h ==> (#[trigger] m.holds[j]).task != task
            || m.holds[j].cleared
}

proof fn one_row_counts_one(s: Seq<HoldRow>, p: spec_fn(HoldRow) -> bool, h: int)
    requires
        0 <= h < s.len(),
        p(s[h]),
        forall|j: int| 0 <= j < s.len() && j != h ==> !p(#[trigger] s[j]),
    ensures
        count_where(s, p) == 1,
    decreases s.len(),
{
    let t = s.drop_last();
    if h == s.len() - 1 {
        no_row_counts_nothing(t, p);
    } else {
        assert(t[h] == s[h]);
        one_row_counts_one(t, p, h);
        assert(!p(s[s.len() - 1]));
    }
}

proof fn no_row_counts_nothing(s: Seq<HoldRow>, p: spec_fn(HoldRow) -> bool)
    requires
        forall|j: int| 0 <= j < s.len() ==> !p(#[trigger] s[j]),
    ensures
        count_where(s, p) == 0,
    decreases s.len(),
{
    if s.len() > 0 {
        assert(!p(s[s.len() - 1]));
        no_row_counts_nothing(s.drop_last(), p);
    }
}

/// The Hold of a Task that is under review, cancelled or failed is lifted on evidence that bears
/// the digest named. A Task under review offers its Result to those that wait for it; one that
/// ended gives its lease back. In any other state, and without a Hold, the request is refused.
pub proof fn holds_are_lifted_on_evidence(
    m: Model,
    task: TaskId,
    i: int,
    o: int,
    h: int,
    digest: Seq<char>,
    key: TextKey,
    note: Seq<char>,
    note_key: TextKey,
)
    requires
        stands(m, task, i),
        digest_shaped(digest),
        looked_with(m, task, key, o),
        is_note(note),
    ensures
        ({
            let t = m.tasks[i];
            let over = t.state == TaskState::Cancelled || t.state == TaskState::Failed;
            let reviewed = t.state == TaskState::Reviewing;
            let answer = clear_worktree_hold(m, task, digest, key, note, note_key, None);
            let after = answer->Ok_0;
            let none = forall|j: int|
                0 <= j < m.holds.len() ==> (#[trigger] m.holds[j]).task != task
                    || m.holds[j].cleared;
            &&& !over && !reviewed ==> answer is Err && answer->Err_0.category
                == ErrorCategory::InvalidState
            &&& (over || reviewed) && none ==> answer is Err && answer->Err_0.category
                == ErrorCategory::NotFound
            &&& (over || reviewed) && sole_hold(m, task, h) ==> answer is Ok && lifts(
                m,
                after,
                task,
                o,
                note_key,
            )
            &&& over && sole_hold(m, task, h) ==> gives_back(m, after, task) && after.tasks
                == m.tasks && after.dependencies == m.dependencies
            &&& reviewed && sole_hold(m, task, h) ==> after.leases == m.leases && forall|r: int|
             #[trigger]
                stored(m, task, t.revision, r) ==> passes_on(
                    m,
                    after,
                    task,
                    DependencyCondition::ResultReady,
                    t.revision,
                    r,
                    -1,
                )
        }),
{
    let t = m.tasks[i];
    places_are_found(m, task, i);
    looking_is_found(m, task, key, o);
    let p = is_active_hold_of(task);
    if sole_hold(m, task, h) {
        one_row_counts_one(m.holds, p, h);
    }
    if forall|j: int|
        0 <= j < m.holds.len() ==> (#[trigger] m.holds[j]).task != task || m.holds[j].cleared {
        no_row_counts_nothing(m.holds, p);
    }
    let lifted = clear_holds(m, task, m.observations[o].id, note_key);
    assert forall|r: int| #[trigger] stored(m, task, t.revision, r) implies passes_on(
        m,
        satisfy_downstream(
            lifted,
            task,
            DependencyCondition::ResultReady,
            t.revision,
        ),
        task,
        DependencyCondition::ResultReady,
        t.revision,
        r,
        -1,
    ) by {
        assert(stored(lifted, task, t.revision, r));
        satisfaction_passes_on(lifted, task, DependencyCondition::ResultReady, t.revision, r);
    }
}

// ---------------------------------------------------------------------------------------------
// Events on their way to the Supervisor
// ---------------------------------------------------------------------------------------------

/// An event is first found at a place.
pub open spec fn event_at(m: Model, id: SupervisorEventId, e: int) -> bool {
    &&& 0 <= e < m.events.len()
    &&& m.events[e].id == id
    &&& forall|j: int| 0 <= j < e ==> (#[trigger] m.events[j]).id != id
}

/// One event of the ledger has a new state, and no other has.
pub open spec fn puts(
    a: Model,
    b: Model,
    e: int,
    state: SupervisorEventDeliveryState,
) -> bool {
    &&& b.events.len() == a.events.len()
    &&& b.events[e].state == state
    &&& b.events[e].id == a.events[e].id
    &&& b.events[e].summary == a.events[e].summary
    &&& forall|j: int| 0 <= j < a.events.len() && j != e ==> #[trigger] b.events[j] == a.events[j]
}

/// The oldest pending event goes out to the Session that asks, unless one is on its way, was taken
/// or is in doubt.
pub proof fn events_go_out_one_at_a_time(m: Model, actor: AuthenticatedActor, e: int)
    ensures
        ({
            let (after, answer) = claim_event(m, actor);
            let open = exists|j: int|
                0 <= j < m.events.len() && ((#[trigger] m.events[j]).state
                    == SupervisorEventDeliveryState::Dispatching || m.events[j].state
                    == SupervisorEventDeliveryState::Accepted || m.events[j].state
                    == SupervisorEventDeliveryState::Unknown);
            let oldest = 0 <= e < m.events.len() && m.events[e].state
                == SupervisorEventDeliveryState::Pending && forall|j: int|
                0 <= j < e ==> (#[trigger] m.events[j]).state
                    != SupervisorEventDeliveryState::Pending;
            &&& open ==> after == m && answer is None
            &&& !open && oldest ==> {
                &&& answer is Some
                &&& puts(m, after, e, SupervisorEventDeliveryState::Dispatching)
                &&& answer->0 == after.events[e]
                &&& after.event_attempts.len() == m.event_attempts.len() + 1
                &&& after.event_attempts.last().event == m.events[e].id
                &&& after.event_attempts.last().session == actor.session
                &&& after.event_attempts.last().state == AttemptState::Dispatching
                &&& !after.event_attempts.last().wrote
            }
            &&& (forall|j: int|
                0 <= j < m.events.len() ==> (#[trigger] m.events[j]).state
                    != SupervisorEventDeliveryState::Pending) ==> after == m && answer is None
        }),
{
    first_says(m.events, is_pending());
    if some_where(m.events, is_in_flight()) {
        let j = choose|j: int| 0 <= j < m.events.len() && is_in_flight()(#[trigger] m.events[j]);
        assert(m.events[j].state == SupervisorEventDeliveryState::Dispatching || m.events[j].state
            == SupervisorEventDeliveryState::Accepted || m.events[j].state
            == SupervisorEventDeliveryState::Unknown);
    }
    if exists|j: int|
        0 <= j < m.events.len() && ((#[trigger] m.events[j]).state
            == SupervisorEventDeliveryState::Dispatching || m.events[j].state
            == SupervisorEventDeliveryState::Accepted || m.events[j].state
            == SupervisorEventDeliveryState::Unknown) {
        let j = choose|j: int|
            0 <= j < m.events.len() && ((#[trigger] m.events[j]).state
                == SupervisorEventDeliveryState::Dispatching || m.events[j].state
                == SupervisorEventDeliveryState::Accepted || m.events[j].state
                == SupervisorEventDeliveryState::Unknown);
        assert(is_in_flight()(m.events[j]));
    }
    if 0 <= e < m.events.len() && m.events[e].state == SupervisorEventDeliveryState::Pending && (
    forall|j: int|
        0 <= j < e ==> (#[trigger] m.events[j]).state != SupervisorEventDeliveryState::Pending) {
        first_found(m.events, is_pending(), e);
    }
}

/// An event on its way is taken on evidence of its native correlation, by the Session that it went
/// to; it is put back in line where it certainly did not arrive. In other states both are refused.
pub proof fn events_on_their_way_are_taken_or_put_back(
    m: Model,
    actor: AuthenticatedActor,
    id: SupervisorEventId,
    e: int,
    correlation: Seq<char>,
    evidence: Seq<char>,
    said: Acceptance,
    key: TextKey,
)
    requires
        event_at(m, id, e),
        !blank(correlation),
        !blank(evidence),
    ensures
        ({
            let sent = m.events[e].state == SupervisorEventDeliveryState::Dispatching;
            let taken = accept_event(m, actor, id, correlation, evidence, said);
            let back = release_event(m, id, evidence, key);
            &&& !sent ==> taken is Err && taken->Err_0.category == ErrorCategory::InvalidState
            &&& !sent ==> back is Err && back->Err_0.category == ErrorCategory::InvalidState
            &&& sent ==> taken is Ok && puts(
                m,
                taken->Ok_0,
                e,
                SupervisorEventDeliveryState::Accepted,
            )
            &&& sent ==> back is Ok && puts(
                m,
                back->Ok_0,
                e,
                SupervisorEventDeliveryState::Pending,
            )
            &&& sent ==> forall|k: int|
                0 <= k < m.event_attempts.len() ==> {
                    let a = m.event_attempts[k];
                    let b = #[trigger] taken->Ok_0.event_attempts[k];
                    if a.event == id && a.session == actor.session && a.state
                        == AttemptState::Dispatching {
                        b.state == AttemptState::Accepted && b.correlation == Some(
                            said.correlation,
                        ) && b.turn == said.turn && b.evidence == Some(said.evidence)
                    } else {
                        b == a
                    }
                }
            &&& sent ==> forall|k: int|
                0 <= k < m.event_attempts.len() ==> {
                    let a = m.event_attempts[k];
                    let b = #[trigger] back->Ok_0.event_attempts[k];
                    if a.event == id && a.state == AttemptState::Dispatching && !a.wrote {
                        b.state == AttemptState::Cancelled && b.evidence == Some(key)
                    } else {
                        b == a
                    }
                }
        }),
{
    first_found(m.events, is_event(id), e);
}

/// An event that is on its way or was taken may come into doubt, with the attempt that is open;
/// what was taken and never shown is noted as such.
pub proof fn undelivered_events_are_in_doubt(
    m: Model,
    id: SupervisorEventId,
    e: int,
    k: int,
    s: int,
    diagnostic: Seq<char>,
    key: TextKey,
)
    requires
        event_at(m, id, e),
        !blank(diagnostic),
        0 <= k < m.event_attempts.len(),
        m.event_attempts[k].event == id,
        m.event_attempts[k].state == AttemptState::Dispatching || m.event_attempts[k].state
            == AttemptState::Accepted,
        forall|j: int|
            k < j < m.event_attempts.len() ==> (#[trigger] m.event_attempts[j]).event != id || (
            m.event_attempts[j].state != AttemptState::Dispatching && m.event_attempts[j].state
                != AttemptState::Accepted),
        0 <= s < m.sessions.len(),
        m.sessions[s].id == m.event_attempts[k].session,
    ensures
        ({
            let open = m.events[e].state == SupervisorEventDeliveryState::Dispatching
                || m.events[e].state == SupervisorEventDeliveryState::Accepted;
            let answer = mark_event_unknown(m, id, diagnostic, key);
            let after = answer->Ok_0;
            let shown = exists|j: int|
                0 <= j < m.event_observations.len() && (#[trigger] m.event_observations[j]).attempt
                    == m.event_attempts[k].id && m.event_observations[j].kind
                    == EventObservationKind::Presented;
            &&& !open ==> answer is Err && answer->Err_0.category == ErrorCategory::InvalidState
            &&& open ==> answer is Ok && puts(m, after, e, SupervisorEventDeliveryState::Unknown)
                && after.event_attempts[k].state == AttemptState::Unknown
                && after.event_attempts[k].wrote && after.event_attempts[k].doubt == Some(
                Wording::Given { text: key },
            )
            &&& open && (m.event_attempts[k].state == AttemptState::Dispatching || shown)
                ==> after.event_observations == m.event_observations
            &&& open && m.event_attempts[k].state == AttemptState::Accepted && !shown
                ==> exists|j: int|
                0 <= j < after.event_observations.len() && (
                #[trigger] after.event_observations[j]).event == id
                    && after.event_observations[j].attempt == m.event_attempts[k].id
                    && after.event_observations[j].kind
                    == EventObservationKind::PresentationTimeout
        }),
{
    first_found(m.events, is_event(id), e);
    last_found(m.event_attempts, is_unsettled_of(id), k);
    let a = m.event_attempts[k];
    assert(is_session(a.session)(m.sessions[s]));
    first_says(m.sessions, is_session(a.session));
    let p = is_presented(a.id);
    if some_where(m.event_observations, p) {
        let j = choose|j: int|
            0 <= j < m.event_observations.len() && p(#[trigger] m.event_observations[j]);
        assert(m.event_observations[j].attempt == a.id && m.event_observations[j].kind
            == EventObservationKind::Presented);
    }
    if exists|j: int|
        0 <= j < m.event_observations.len() && (#[trigger] m.event_observations[j]).attempt == a.id
            && m.event_observations[j].kind == EventObservationKind::Presented {
        let j = choose|j: int|
            0 <= j < m.event_observations.len() && (#[trigger] m.event_observations[j]).attempt
                == a.id && m.event_observations[j].kind == EventObservationKind::Presented;
        assert(p(m.event_observations[j]));
    }
    let answer = mark_event_unknown(m, id, diagnostic, key);
    if answer is Ok && a.state == AttemptState::Accepted && !some_where(m.event_observations, p) {
        let after = answer->Ok_0;
        let row = EventObservationRow {
            event: a.event,
            attempt: a.id,
            kind: EventObservationKind::PresentationTimeout,
            turn: None,
            native_session: m.sessions[first_where(
                m.sessions,
                is_session(a.session),
            )->0].native_session,
            native_thread: m.sessions[first_where(
                m.sessions,
                is_session(a.session),
            )->0].native_thread,
            evidence: Wording::Given { text: key },
        };
        let same = is_same_observation(row);
        if some_where(m.event_observations, same) {
            let j = choose|j: int|
                0 <= j < m.event_observations.len() && same(#[trigger] m.event_observations[j]);
            assert(after.event_observations[j].event == id);
        } else {
            let j = m.event_observations.len() as int;
            assert(after.event_observations[j].event == id);
        }
    }
}

/// An event in doubt is settled as the Supervisor says: it is tried again, was dealt with or is
/// dropped. What is not in doubt is refused.
pub proof fn doubtful_events_are_settled_as_asked(
    m: Model,
    id: SupervisorEventId,
    e: int,
    resolution: SupervisorEventResolution,
    note: Seq<char>,
    key: TextKey,
)
    requires
        event_at(m, id, e),
    ensures
        ({
            let answer = reconcile_event(m, id, resolution, note, key);
            let doubtful = m.events[e].state == SupervisorEventDeliveryState::Unknown;
            let after = answer->Ok_0.0;
            &&& !is_note(note) ==> answer is Err && answer->Err_0.category
                == ErrorCategory::InvalidInput
            &&& is_note(note) && !doubtful ==> answer is Err && answer->Err_0.category
                == ErrorCategory::InvalidState
            &&& is_note(note) && doubtful ==> answer is Ok && puts(m, after, e, answer->Ok_0.1)
                && after.reconciliations.len() == m.reconciliations.len() + 1
                && after.reconciliations.last().event == id
                && after.reconciliations.last().resolution == resolution
                && after.reconciliations.last().note == key
            &&& is_note(note) && doubtful && resolution == SupervisorEventResolution::Retry
                ==> answer->Ok_0.1 == SupervisorEventDeliveryState::Pending
            &&& is_note(note) && doubtful && resolution == SupervisorEventResolution::Processed
                ==> answer->Ok_0.1 == SupervisorEventDeliveryState::Processed
            &&& is_note(note) && doubtful && resolution == SupervisorEventResolution::Cancel
                ==> answer->Ok_0.1 == SupervisorEventDeliveryState::Cancelled
        }),
{
    first_found(m.events, is_event(id), e);
}

/// How far a taken event got is noted once, for the newest attempt that the reporting Session took.
pub proof fn presentations_belong_to_taken_events(
    m: Model,
    actor: AuthenticatedActor,
    id: SupervisorEventId,
    k: int,
    phase: SupervisorPresentationPhase,
    turn: Option<TextKey>,
    evidence: Seq<char>,
    key: TextKey,
)
    requires
        !blank(evidence),
        byte_count(evidence) <= 16_384,
        exists|s: int|
            0 <= s < m.sessions.len() && (#[trigger] m.sessions[s]).id == actor.session
                && !m.sessions[s].ended,
    ensures
        ({
            let answer = record_presentation(m, actor, id, phase, turn, evidence, key);
            let after = answer->Ok_0;
            let none = forall|j: int|
                0 <= j < m.event_attempts.len() ==> (#[trigger] m.event_attempts[j]).event != id
                    || m.event_attempts[j].session != actor.session || m.event_attempts[j].state
                    != AttemptState::Accepted;
            let newest = 0 <= k < m.event_attempts.len() && m.event_attempts[k].event == id
                && m.event_attempts[k].session == actor.session && m.event_attempts[k].state
                == AttemptState::Accepted && forall|j: int|
                k < j < m.event_attempts.len() ==> (#[trigger] m.event_attempts[j]).event != id
                    || m.event_attempts[j].session != actor.session || m.event_attempts[j].state
                    != AttemptState::Accepted;
            let kind = match phase {
                SupervisorPresentationPhase::Presented => EventObservationKind::Presented,
                SupervisorPresentationPhase::TurnStarted => EventObservationKind::TurnStarted,
                SupervisorPresentationPhase::TurnCompleted => EventObservationKind::TurnCompleted,
            };
            &&& none ==> answer is Err && answer->Err_0.category == ErrorCategory::InvalidState
            &&& newest ==> answer is Ok && exists|j: int|
                0 <= j < after.event_observations.len() && (
                #[trigger] after.event_observations[j]).event == id
                    && after.event_observations[j].attempt == m.event_attempts[k].id
                    && after.event_observations[j].kind == kind && after.event_observations[j].turn
                    == turn
            &&& newest ==> after.events == m.events && after.event_attempts == m.event_attempts
            &&& newest ==> after.event_observations.len() <= m.event_observations.len() + 1
        }),
{
    let p = is_accepted_at(id, actor.session);
    if forall|j: int|
        0 <= j < m.event_attempts.len() ==> (#[trigger] m.event_attempts[j]).event != id
            || m.event_attempts[j].session != actor.session || m.event_attempts[j].state
            != AttemptState::Accepted {
        last_missing(m.event_attempts, p);
    }
    let newest = 0 <= k < m.event_attempts.len() && m.event_attempts[k].event == id
        && m.event_attempts[k].session == actor.session && m.event_attempts[k].state
        == AttemptState::Accepted && forall|j: int|
        k < j < m.event_attempts.len() ==> (#[trigger] m.event_attempts[j]).event != id
            || m.event_attempts[j].session != actor.session || m.event_attempts[j].state
            != AttemptState::Accepted;
    let s = choose|s: int|
        0 <= s < m.sessions.len() && (#[trigger] m.sessions[s]).id == actor.session
            && !m.sessions[s].ended;
    assert(is_live_session(actor.session)(m.sessions[s]));
    first_says(m.sessions, is_live_session(actor.session));
    if newest {
        last_found(m.event_attempts, p, k);
        let at = first_where(m.sessions, is_live_session(actor.session))->0;
        let row = EventObservationRow {
            event: id,
            attempt: m.event_attempts[k].id,
            kind: phase_kind(phase),
            turn,
            native_session: m.sessions[at].native_session,
            native_thread: m.sessions[at].native_thread,
            evidence: Wording::Given { text: key },
        };
        let same = is_same_observation(row);
        let after = record_presentation(m, actor, id, phase, turn, evidence, key)->Ok_0;
        if some_where(m.event_observations, same) {
            let j = choose|j: int|
                0 <= j < m.event_observations.len() && same(#[trigger] m.event_observations[j]);
            assert(after.event_observations[j].event == id);
        } else {
            let j = m.event_observations.len() as int;
            assert(after.event_observations[j].event == id);
        }
    }
}

} // verus!

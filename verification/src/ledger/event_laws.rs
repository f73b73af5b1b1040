//! What holds of Supervisor events whatever commands are given.
use vstd::prelude::*;

use crate::contract::{DeliveryIntent, SupervisorEventDeliveryState, SupervisorEventKind};
use crate::identity::{MessageId, SupervisorEventId, TaskId};
use crate::ledger::attention::{
    acknowledge, acknowledge_events, acknowledge_upto, reconcile_event, SupervisorEventResolution,
};
use crate::ledger::events::{
    accept_event, claim_event, doubt_unsettled, event_state, in_flight, is_in_flight, is_pending,
    mark_event_unknown, move_event, note_timeouts_upto, release_event, Acceptance,
};
use crate::ledger::{insert_event, is_event, is_event_from, Model};
use crate::rows::{AuthenticatedActor, EventOrigin, EventRow, Wording};
use crate::select::{first_says, first_where, some_where};

verus! {

/// At most one event is in flight.
pub open spec fn one_in_flight(m: Model) -> bool {
    forall|i: int, j: int|
        0 <= i < m.events.len() && 0 <= j < m.events.len() && in_flight(#[trigger] m.events[i])
            && in_flight(#[trigger] m.events[j]) ==> i == j
}

/// No two events have the same origin.
pub open spec fn origins_differ(m: Model) -> bool {
    forall|i: int, j: int|
        0 <= i < j < m.events.len() ==> (#[trigger] m.events[i]).origin != (
        #[trigger] m.events[j]).origin
}

/// An event that no command brings back.
pub open spec fn closed(e: EventRow) -> bool {
    e.state == SupervisorEventDeliveryState::Processed || e.state
        == SupervisorEventDeliveryState::Cancelled
}

/// Claiming never puts a second event in flight, and takes pending events in the order in which
/// they were made.
pub proof fn claims_are_exclusive_and_in_order(m: Model, actor: AuthenticatedActor)
    requires
        one_in_flight(m),
    ensures
        one_in_flight(claim_event(m, actor).0),
        match claim_event(m, actor).1 {
            None => claim_event(m, actor).0 == m && (some_where(m.events, is_in_flight())
                || !some_where(m.events, is_pending())),
            Some(e) => {
                &&& !some_where(m.events, is_in_flight())
                &&& e.state == SupervisorEventDeliveryState::Dispatching
                &&& exists|i: int|
                    {
                        &&& 0 <= i < m.events.len()
                        &&& (#[trigger] m.events[i]).id == e.id
                        &&& m.events[i].state == SupervisorEventDeliveryState::Pending
                        &&& forall|j: int|
                            0 <= j < i ==> (#[trigger] m.events[j]).state
                                != SupervisorEventDeliveryState::Pending
                    }
            },
        },
{
    first_says(m.events, is_pending());
    if !some_where(m.events, is_in_flight()) {
        assert forall|j: int| 0 <= j < m.events.len() implies !in_flight(
            #[trigger] m.events[j],
        ) by {
            assert(!is_in_flight()(m.events[j]));
        }
        match first_where(m.events, is_pending()) {
            Some(i) => {
                assert(is_pending()(m.events[i]));
                assert forall|j: int| 0 <= j < i implies (#[trigger] m.events[j]).state
                    != SupervisorEventDeliveryState::Pending by {
                    assert(!is_pending()(m.events[j]));
                }
            },
            None => {},
        }
    }
}

proof fn move_event_says(m: Model, id: SupervisorEventId, state: SupervisorEventDeliveryState)
    ensures
        move_event(m, id, state).events.len() == m.events.len(),
        forall|i: int|
            0 <= i < m.events.len() ==> (#[trigger] move_event(m, id, state).events[i]).origin
                == m.events[i].origin,
        forall|i: int|
            0 <= i < m.events.len() && Some(i) != first_where(m.events, is_event(id))
                ==> #[trigger] move_event(m, id, state).events[i] == m.events[i],
        match first_where(m.events, is_event(id)) {
            Some(i) => 0 <= i < m.events.len() && move_event(m, id, state).events[i].state == state,
            None => true,
        },
{
    first_says(m.events, is_event(id));
}

/// Acceptance, release and reconciliation keep at most one event in flight.
pub proof fn answers_keep_one_in_flight(
    m: Model,
    actor: AuthenticatedActor,
    id: SupervisorEventId,
    resolution: SupervisorEventResolution,
    a: Seq<char>,
    b: Seq<char>,
    said: Acceptance,
)
    requires
        one_in_flight(m),
    ensures
        accept_event(m, actor, id, a, b, said) is Ok ==> one_in_flight(
            accept_event(m, actor, id, a, b, said)->Ok_0,
        ),
        release_event(m, id, a, said.evidence) is Ok ==> one_in_flight(
            release_event(m, id, a, said.evidence)->Ok_0,
        ),
        mark_event_unknown(m, id, a, said.evidence) is Ok ==> one_in_flight(
            mark_event_unknown(m, id, a, said.evidence)->Ok_0,
        ),
        reconcile_event(m, id, resolution, a, said.evidence) is Ok ==> one_in_flight(
            reconcile_event(m, id, resolution, a, said.evidence)->Ok_0.0,
        ),
{
    move_event_says(m, id, SupervisorEventDeliveryState::Accepted);
    move_event_says(m, id, SupervisorEventDeliveryState::Pending);
    move_event_says(m, id, SupervisorEventDeliveryState::Unknown);
    move_event_says(m, id, SupervisorEventDeliveryState::Processed);
    move_event_says(m, id, SupervisorEventDeliveryState::Cancelled);
}

proof fn timeouts_keep_events(m: Model, n: nat, why: Wording)
    ensures
        note_timeouts_upto(m, n, why).events == m.events,
    decreases n,
{
    if n > 0 {
        timeouts_keep_events(m, (n - 1) as nat, why);
    }
}

/// A lost connection puts the event in flight in doubt and touches no other.
pub proof fn doubt_keeps_one_in_flight(m: Model, why: Wording)
    requires
        one_in_flight(m),
    ensures
        one_in_flight(doubt_unsettled(m, why)),
        forall|i: int|
            0 <= i < m.events.len() && !in_flight(#[trigger] m.events[i]) ==> doubt_unsettled(
                m,
                why,
            ).events[i] == m.events[i],
{
    timeouts_keep_events(m, m.event_attempts.len(), why);
    let after = doubt_unsettled(m, why);
    assert forall|i: int, j: int|
        0 <= i < after.events.len() && 0 <= j < after.events.len() && in_flight(
            #[trigger] after.events[i],
        ) && in_flight(#[trigger] after.events[j]) implies i == j by {
        assert(in_flight(m.events[i]) && in_flight(m.events[j]));
    }
}

/// A new event starts pending behind all others, and none is made twice for one origin.
pub proof fn new_events_are_pending_and_unique(
    m: Model,
    kind: SupervisorEventKind,
    task: Option<TaskId>,
    revision: Option<u32>,
    message: Option<MessageId>,
    origin: EventOrigin,
    intent: DeliveryIntent,
    summary: Option<Wording>,
)
    requires
        one_in_flight(m),
        origins_differ(m),
    ensures
        ({
            let after = insert_event(m, kind, task, revision, message, origin, intent, summary);
            &&& one_in_flight(after)
            &&& origins_differ(after)
            &&& some_where(after.events, is_event_from(origin))
            &&& insert_event(after, kind, task, revision, message, origin, intent, summary) == after
            &&& m.events.len() <= after.events.len()
            &&& after.events.take(m.events.len() as int) =~= m.events
        }),
{
    let after = insert_event(m, kind, task, revision, message, origin, intent, summary);
    if some_where(m.events, is_event_from(origin)) {
    } else {
        assert forall|i: int| 0 <= i < m.events.len() implies (#[trigger] m.events[i]).origin
            != origin by {
            assert(!is_event_from(origin)(m.events[i]));
        }
        assert(is_event_from(origin)(after.events[after.events.len() - 1]));
    }
}

proof fn acknowledge_says(m: Model, actor: AuthenticatedActor, id: SupervisorEventId)
    ensures
        acknowledge(m, actor, id).events == move_event(
            m,
            id,
            SupervisorEventDeliveryState::Processed,
        ).events,
{
}

proof fn acknowledge_upto_says(
    m: Model,
    actor: AuthenticatedActor,
    ids: Seq<SupervisorEventId>,
    n: nat,
)
    requires
        n <= ids.len(),
    ensures
        acknowledge_upto(m, actor, ids, n).events.len() == m.events.len(),
        forall|i: int|
            0 <= i < m.events.len() ==> (#[trigger] acknowledge_upto(m, actor, ids, n).events[i])
                == m.events[i] || acknowledge_upto(m, actor, ids, n).events[i].state
                == SupervisorEventDeliveryState::Processed,
        forall|i: int|
            0 <= i < m.events.len() ==> (#[trigger] acknowledge_upto(m, actor, ids, n).events[i]).id
                == m.events[i].id,
        forall|k: int|
            0 <= k < n && first_where(m.events, is_event(#[trigger] ids[k])) is Some
                ==> event_state(acknowledge_upto(m, actor, ids, n), ids[k]) == Some(
                SupervisorEventDeliveryState::Processed,
            ),
    decreases n,
{
    if n > 0 {
        let before = acknowledge_upto(m, actor, ids, (n - 1) as nat);
        acknowledge_upto_says(m, actor, ids, (n - 1) as nat);
        acknowledge_says(before, actor, ids[n - 1]);
        move_event_says(before, ids[n - 1], SupervisorEventDeliveryState::Processed);
        first_says(before.events, is_event(ids[n - 1]));
        let after = acknowledge_upto(m, actor, ids, n);
        assert forall|i: int| 0 <= i < m.events.len() implies (#[trigger] after.events[i]).id
            == m.events[i].id by {
            assert(before.events[i].id == m.events[i].id);
        }
        assert forall|i: int| 0 <= i < m.events.len() implies (#[trigger] after.events[i])
            == m.events[i] || after.events[i].state == SupervisorEventDeliveryState::Processed by {
            assert(before.events[i] == m.events[i] || before.events[i].state
                == SupervisorEventDeliveryState::Processed);
        }
        assert forall|k: int|
            0 <= k < n && first_where(m.events, is_event(#[trigger] ids[k])) is Some implies event_state(
            after,
            ids[k],
        ) == Some(SupervisorEventDeliveryState::Processed) by {
            same_ids_same_place(m.events, after.events, ids[k]);
            same_ids_same_place(m.events, before.events, ids[k]);
            first_says(m.events, is_event(ids[k]));
            let i = first_where(m.events, is_event(ids[k]))->0;
            if k < n - 1 {
                assert(event_state(before, ids[k]) == Some(SupervisorEventDeliveryState::Processed));
                assert(after.events[i] == before.events[i] || after.events[i].state
                    == SupervisorEventDeliveryState::Processed);
            }
        }
    }
}

proof fn same_ids_same_place(a: Seq<EventRow>, b: Seq<EventRow>, id: SupervisorEventId)
    requires
        a.len() == b.len(),
        forall|i: int| 0 <= i < a.len() ==> (#[trigger] b[i]).id == a[i].id,
    ensures
        first_where(a, is_event(id)) == first_where(b, is_event(id)),
{
    first_says(a, is_event(id));
    first_says(b, is_event(id));
    match (first_where(a, is_event(id)), first_where(b, is_event(id))) {
        (Some(x), Some(y)) => {
            assert(is_event(id)(a[x]) && is_event(id)(b[y]));
            if x < y {
                assert(b[x].id == a[x].id);
                assert(!is_event(id)(b[x]));
            }
            if y < x {
                assert(b[y].id == a[y].id);
                assert(!is_event(id)(a[y]));
            }
        },
        (Some(x), None) => {
            assert(b[x].id == a[x].id);
            assert(!is_event(id)(b[x]));
        },
        (None, Some(y)) => {
            assert(b[y].id == a[y].id);
            assert(!is_event(id)(a[y]));
        },
        (None, None) => {},
    }
}

/// An accepted acknowledgement settles every event that it names and leaves every other event as
/// it was; given again it is refused.
pub proof fn acknowledgement_settles_what_it_names(
    m: Model,
    actor: AuthenticatedActor,
    ids: Seq<SupervisorEventId>,
)
    requires
        acknowledge_events(m, actor, ids) is Ok,
        one_in_flight(m),
    ensures
        ({
            let after = acknowledge_events(m, actor, ids)->Ok_0;
            &&& after.events.len() == m.events.len()
            &&& one_in_flight(after)
            &&& forall|k: int|
                0 <= k < ids.len() ==> event_state(after, #[trigger] ids[k]) == Some(
                    SupervisorEventDeliveryState::Processed,
                )
            &&& forall|i: int|
                0 <= i < m.events.len() ==> (#[trigger] after.events[i]) == m.events[i]
                    || after.events[i].state == SupervisorEventDeliveryState::Processed
            &&& acknowledge_events(after, actor, ids) is Err
        }),
{
    let after = acknowledge_events(m, actor, ids)->Ok_0;
    acknowledge_upto_says(m, actor, ids, ids.len());
    assert forall|k: int| 0 <= k < ids.len() implies event_state(after, #[trigger] ids[k]) == Some(
        SupervisorEventDeliveryState::Processed,
    ) by {
        assert(!crate::ledger::attention::is_unacknowledgeable(m)(ids[k]));
    }
    assert(event_state(after, ids[0]) == Some(SupervisorEventDeliveryState::Processed));
    assert(crate::ledger::attention::is_unacknowledgeable(after)(ids[0]));
    assert forall|i: int, j: int|
        0 <= i < after.events.len() && 0 <= j < after.events.len() && in_flight(
            #[trigger] after.events[i],
        ) && in_flight(#[trigger] after.events[j]) implies i == j by {
        assert(after.events[i] == m.events[i] && after.events[j] == m.events[j]);
    }
}

/// An event that is processed or cancelled stays as it is, whatever is reported of it.
pub proof fn closed_events_stay_closed(
    m: Model,
    actor: AuthenticatedActor,
    i: int,
    id: SupervisorEventId,
    resolution: SupervisorEventResolution,
    a: Seq<char>,
    b: Seq<char>,
    said: Acceptance,
)
    requires
        0 <= i < m.events.len(),
        closed(m.events[i]),
    ensures
        claim_event(m, actor).0.events[i] == m.events[i],
        accept_event(m, actor, id, a, b, said) is Ok ==> accept_event(
            m,
            actor,
            id,
            a,
            b,
            said,
        )->Ok_0.events[i] == m.events[i],
        release_event(m, id, a, said.evidence) is Ok ==> release_event(
            m,
            id,
            a,
            said.evidence,
        )->Ok_0.events[i] == m.events[i],
        mark_event_unknown(m, id, a, said.evidence) is Ok ==> mark_event_unknown(
            m,
            id,
            a,
            said.evidence,
        )->Ok_0.events[i] == m.events[i],
        reconcile_event(m, id, resolution, a, said.evidence) is Ok ==> reconcile_event(
            m,
            id,
            resolution,
            a,
            said.evidence,
        )->Ok_0.0.events[i] == m.events[i],
        doubt_unsettled(m, Wording::Given { text: said.evidence }).events[i] == m.events[i],
{
    first_says(m.events, is_pending());
    first_says(m.events, is_event(id));
    move_event_says(m, id, SupervisorEventDeliveryState::Accepted);
    move_event_says(m, id, SupervisorEventDeliveryState::Pending);
    move_event_says(m, id, SupervisorEventDeliveryState::Unknown);
    move_event_says(m, id, SupervisorEventDeliveryState::Processed);
    move_event_says(m, id, SupervisorEventDeliveryState::Cancelled);
    timeouts_keep_events(m, m.event_attempts.len(), Wording::Given { text: said.evidence });
}

} // verus!

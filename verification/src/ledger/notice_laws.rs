//! What the Supervisor is told, and what settles it.
use vstd::prelude::*;

use crate::contract::{
    HarnessTier, MessageKind, SupervisorEventDeliveryState, SupervisorEventKind, TaskState,
};
use crate::error::ErrorCategory;
use crate::identity::{AttachmentId, SupervisorEventId, TaskId};
use crate::ledger::{
    is_event, is_harness, is_live_session, is_live_session_of, is_task, record_transition_frame,
    Model,
};
use crate::ledger::attention::{acknowledge_events, is_unacknowledgeable};
use crate::ledger::create::KeyedRequest;
use crate::ledger::frames::process_events_frame;
use crate::ledger::messages::{is_live_binding, posted, send_message, NewMessage};
use crate::ledger::route_laws::{is_new, sent_messages_wait_for_acceptance};
use crate::ledger::session_laws::serves;
use crate::ledger::steps::process_events_upto;
use crate::rows::{AuthenticatedActor, BindingRow, EventRow, TaskRow, TransitionReason};
use crate::select::{first_found, first_missing, first_says, first_where, last_found, some_where};

verus! {

// ---------------------------------------------------------------------------------------------
// Where Messages go
// ---------------------------------------------------------------------------------------------

/// A binding of a Task is in force, to a Session that lives.
pub open spec fn reaches(m: Model, b: BindingRow, task: TaskId) -> bool {
    b.task == task && !b.superseded && exists|s: int|
        0 <= s < m.sessions.len() && (#[trigger] m.sessions[s]).id == b.session
            && !m.sessions[s].ended
}

proof fn bindings_reach_live_sessions(m: Model, b: BindingRow, task: TaskId)
    ensures
        is_live_binding(m, task)(b) == reaches(m, b, task),
{
    first_says(m.sessions, is_live_session(b.session));
    if exists|s: int|
        0 <= s < m.sessions.len() && (#[trigger] m.sessions[s]).id == b.session
            && !m.sessions[s].ended {
        let s = choose|s: int|
            0 <= s < m.sessions.len() && (#[trigger] m.sessions[s]).id == b.session
                && !m.sessions[s].ended;
        assert(is_live_session(b.session)(m.sessions[s]));
    }
    if let Some(s) = first_where(m.sessions, is_live_session(b.session)) {
        assert(m.sessions[s].id == b.session && !m.sessions[s].ended);
    }
}

/// A Message about a Task goes to the Session that its Worker is bound to for that Task, and to
/// none where there is no such Session; every other Message goes to the newest Session of its
/// recipient that lives.
pub proof fn messages_go_to_the_bound_session(
    m: Model,
    actor: AuthenticatedActor,
    q: KeyedRequest,
    new: NewMessage,
    attachments: Seq<AttachmentId>,
    h: int,
    b: int,
    s: int,
)
    requires
        is_new(m, q),
        send_message(m, actor, q, new, attachments) is Ok,
        serves(m, new.to, h),
    ensures
        ({
            let sent = send_message(m, actor, q, new, attachments)->Ok_0.0.attempts.last();
            let bound = m.harnesses[h].tier == HarnessTier::Worker && new.task is Some;
            let newest = 0 <= s < m.sessions.len() && m.sessions[s].harness == new.to
                && !m.sessions[s].ended && forall|j: int|
                s < j < m.sessions.len() ==> (#[trigger] m.sessions[j]).harness != new.to
                    || m.sessions[j].ended;
            &&& bound && 0 <= b < m.bindings.len() && reaches(m, m.bindings[b], new.task->0) && (
            forall|j: int|
                0 <= j < b ==> !reaches(m, #[trigger] m.bindings[j], new.task->0)) ==> sent.session
                == Some(m.bindings[b].session)
            &&& bound && (forall|j: int|
                0 <= j < m.bindings.len() ==> !reaches(m, #[trigger] m.bindings[j], new.task->0))
                ==> sent.session is None
            &&& !bound && newest ==> sent.session == Some(m.sessions[s].id)
        }),
{
    first_found(m.harnesses, is_harness(new.to), h);
    let next = send_message(m, actor, q, new, attachments)->Ok_0.0;
    sent_messages_wait_for_acceptance(m, actor, q, new, attachments);
    let first = posted(m, actor, new);
    assert(next.attempts.last() == first.attempts.last()) by {
        if let Some(id) = new.task {
            let i = first_where(first.tasks, is_task(id))->0;
            record_transition_frame(
                Model {
                    tasks: first.tasks.update(
                        i,
                        TaskRow { state: TaskState::Waiting, ..first.tasks[i] },
                    ),
                    ..first
                },
                id,
                TaskState::Working,
                TaskState::Waiting,
                TransitionReason::Plain,
            );
            process_events_frame(
                first,
                SupervisorEventKind::BlockingQuestion,
                id,
                None,
                first.events.len(),
            );
            process_events_frame(
                first,
                SupervisorEventKind::ResultReady,
                id,
                None,
                first.events.len(),
            );
        }
    }
    if let Some(id) = new.task {
        let p = is_live_binding(m, id);
        assert forall|j: int| 0 <= j < m.bindings.len() implies p(#[trigger] m.bindings[j])
            == reaches(m, m.bindings[j], id) by {
            bindings_reach_live_sessions(m, m.bindings[j], id);
        }
        if 0 <= b < m.bindings.len() && reaches(m, m.bindings[b], id) && (forall|j: int|
            0 <= j < b ==> !reaches(m, #[trigger] m.bindings[j], id)) {
            assert forall|j: int| 0 <= j < b implies !p(#[trigger] m.bindings[j]) by {
                assert(!reaches(m, m.bindings[j], id));
            }
            first_found(m.bindings, p, b);
        }
        if forall|j: int|
            0 <= j < m.bindings.len() ==> !reaches(m, #[trigger] m.bindings[j], id) {
            assert forall|j: int| 0 <= j < m.bindings.len() implies !p(#[trigger] m.bindings[j]) by {
                assert(!reaches(m, m.bindings[j], id));
            }
            first_missing(m.bindings, p);
        }
    }
    if 0 <= s < m.sessions.len() && m.sessions[s].harness == new.to && !m.sessions[s].ended && (
    forall|j: int|
        s < j < m.sessions.len() ==> (#[trigger] m.sessions[j]).harness != new.to
            || m.sessions[j].ended) {
        last_found(m.sessions, is_live_session_of(new.to), s);
    }
}

// ---------------------------------------------------------------------------------------------
// What settles events
// ---------------------------------------------------------------------------------------------

/// An event that an answer on a Task settles: of the kind that the answer is for, about the Task,
/// and pending or taken.
pub open spec fn is_answered(e: EventRow, kind: SupervisorEventKind, task: TaskId) -> bool {
    &&& e.kind == kind
    &&& e.task == Some(task)
    &&& e.state == SupervisorEventDeliveryState::Pending || e.state
        == SupervisorEventDeliveryState::Accepted
}

pub(crate) proof fn answers_settle(
    m: Model,
    kind: SupervisorEventKind,
    task: TaskId,
    revision: Option<u32>,
    n: nat,
)
    requires
        n <= m.events.len(),
    ensures
        ({
            let after = process_events_upto(m, kind, task, revision, n);
            &&& after.events.len() == m.events.len()
            &&& forall|e: int|
                n <= e < m.events.len() ==> #[trigger] after.events[e] == m.events[e]
            &&& forall|e: int|
                0 <= e < n ==> #[trigger] after.events[e] == if is_answered(m.events[e], kind, task)
                    && (revision is None || m.events[e].revision == revision) {
                    EventRow { state: SupervisorEventDeliveryState::Processed, ..m.events[e] }
                } else {
                    m.events[e]
                }
        }),
    decreases n,
{
    if n > 0 {
        answers_settle(m, kind, task, revision, (n - 1) as nat);
    }
}

/// A Reply settles the open Questions of its Task, and a Correction the open Results; every other
/// event stays, and a Notification settles none.
pub proof fn answers_settle_what_they_answer(
    m: Model,
    actor: AuthenticatedActor,
    q: KeyedRequest,
    new: NewMessage,
    attachments: Seq<AttachmentId>,
    task: TaskId,
)
    requires
        is_new(m, q),
        send_message(m, actor, q, new, attachments) is Ok,
        new.task == Some(task),
        new.kind == MessageKind::Reply || new.kind == MessageKind::Correction || new.kind
            == MessageKind::Notification,
    ensures
        ({
            let next = send_message(m, actor, q, new, attachments)->Ok_0.0;
            let kind = if new.kind == MessageKind::Reply {
                SupervisorEventKind::BlockingQuestion
            } else {
                SupervisorEventKind::ResultReady
            };
            &&& next.events.len() == m.events.len()
            &&& new.kind != MessageKind::Notification ==> forall|e: int|
                0 <= e < m.events.len() ==> #[trigger] next.events[e] == if is_answered(
                    m.events[e],
                    kind,
                    task,
                ) {
                    EventRow { state: SupervisorEventDeliveryState::Processed, ..m.events[e] }
                } else {
                    m.events[e]
                }
            &&& new.kind == MessageKind::Notification ==> next.events == m.events
        }),
{
    let first = posted(m, actor, new);
    answers_settle(
        first,
        SupervisorEventKind::BlockingQuestion,
        task,
        None,
        first.events.len(),
    );
    answers_settle(first, SupervisorEventKind::ResultReady, task, None, first.events.len());
}

/// Every event of a list is pending or was taken.
pub open spec fn are_open(m: Model, ids: Seq<SupervisorEventId>) -> bool {
    forall|k: int| 0 <= k < ids.len() ==> is_open(m, #[trigger] ids[k])
}

proof fn open_lists_are_found(m: Model, ids: Seq<SupervisorEventId>)
    ensures
        some_where(ids, is_unacknowledgeable(m)) == !are_open(m, ids),
{
    let p = is_unacknowledgeable(m);
    if some_where(ids, p) {
        let k = choose|k: int| 0 <= k < ids.len() && p(#[trigger] ids[k]);
        open_events_are_found(m, ids[k]);
        assert(!is_open(m, ids[k]));
    }
    if !are_open(m, ids) {
        let k = choose|k: int| 0 <= k < ids.len() && !is_open(m, #[trigger] ids[k]);
        open_events_are_found(m, ids[k]);
        assert(p(ids[k]));
    }
}

/// Events are acknowledged together, 1 to 32 different ones that are pending or taken, or not at
/// all.
pub proof fn events_are_acknowledged_together(
    m: Model,
    actor: AuthenticatedActor,
    ids: Seq<SupervisorEventId>,
)
    ensures
        ({
            let answer = acknowledge_events(m, actor, ids);
            let sound = 1 <= ids.len() <= 32 && ids.no_duplicates();
            &&& answer is Ok <==> sound && are_open(m, ids)
            &&& sound && !are_open(m, ids) ==> answer->Err_0.category == ErrorCategory::InvalidState
            &&& !sound ==> answer->Err_0.category == ErrorCategory::InvalidInput
        }),
{
    open_lists_are_found(m, ids);
}

/// The first event with an identity is pending or was taken.
pub open spec fn is_open(m: Model, id: SupervisorEventId) -> bool {
    exists|e: int|
        {
            &&& 0 <= e < m.events.len()
            &&& (#[trigger] m.events[e]).id == id
            &&& m.events[e].state == SupervisorEventDeliveryState::Pending || m.events[e].state
                == SupervisorEventDeliveryState::Accepted
            &&& forall|j: int| 0 <= j < e ==> (#[trigger] m.events[j]).id != id
        }
}

proof fn open_events_are_found(m: Model, id: SupervisorEventId)
    ensures
        is_unacknowledgeable(m)(id) == !is_open(m, id),
{
    first_says(m.events, is_event(id));
    if is_open(m, id) {
        let e = choose|e: int|
            {
                &&& 0 <= e < m.events.len()
                &&& (#[trigger] m.events[e]).id == id
                &&& m.events[e].state == SupervisorEventDeliveryState::Pending || m.events[e].state
                    == SupervisorEventDeliveryState::Accepted
                &&& forall|j: int| 0 <= j < e ==> (#[trigger] m.events[j]).id != id
            };
        first_found(m.events, is_event(id), e);
    }
    if !is_unacknowledgeable(m)(id) {
        let e = first_where(m.events, is_event(id))->0;
        assert forall|j: int| 0 <= j < e implies (#[trigger] m.events[j]).id != id by {
            assert(!is_event(id)(m.events[j]));
        }
        assert(m.events[e].id == id);
    }
}

} // verus!

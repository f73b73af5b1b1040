//! What is shown of the ledger is what it holds.
use vstd::prelude::*;

use crate::capability::ActorContext;
use crate::digest::digest_form;
use crate::ledger::{is_live_session, Model};
use crate::ledger::create::is_attachment;
use crate::ledger::execute::Caller;
use crate::ledger::notices::{event_summary, fixed_summary};
use crate::ledger::present::{shows_event, shows_graph, shows_message, shows_session, shows_task};
use crate::ledger::queries::{EventStatusRow, GraphRow, InboxRow, TaskStatusRow};
use crate::ledger::query::{answers, caller_of, CoordinatorQuery, QueryRows};
use crate::ledger::schedule_laws::{places_are_found, stands};
use crate::rows::{AuthenticatedActor, BindingReason, EventRow, SessionRow, TextKey, Wording};
use crate::select::first_says;
use crate::text::optional_text;
use crate::views::{InboxMessageView, SessionSelfView, SupervisorEventView, TaskGraphView, TaskView};

verus! {

// ---------------------------------------------------------------------------------------------
// Rows and views
// ---------------------------------------------------------------------------------------------

/// A Task is shown with its own identity, Worker, state, revision, role and policy, and with the
/// Session that it is bound to, whether that was used before, and why it was chosen.
pub proof fn tasks_are_shown_as_they_are(
    names: Seq<Seq<char>>,
    harnesses: Seq<Seq<char>>,
    row: TaskStatusRow,
    v: TaskView,
)
    requires
        shows_task(names, harnesses, row, v),
    ensures
        v.id == row.task.id,
        v.state == row.task.state,
        v.result_revision == row.task.revision,
        v.task_role == row.task.role,
        v.requested_session_policy == row.task.policy,
        row.task.worker < harnesses.len(),
        v.worker_id@ == harnesses[row.task.worker as int],
        row.binding is None <==> v.harness_session_id is None,
        row.binding is Some ==> {
            let b = row.binding->0;
            &&& v.harness_session_id == Some(b.session)
            &&& v.session_reused == Some(b.reused)
            &&& v.effective_session_policy == Some(b.effective)
            &&& b.reason matches BindingReason::Evaluated { code, reason } ==> (reason < names.len()
                ==> optional_text(v.session_decision_reason) == Some(names[reason as int]))
        },
{
}

/// A Task of the graph is shown with its place in line, what it waits for, and each of its edges
/// with the revision that satisfies it.
pub proof fn the_graph_is_shown_as_it_is(
    names: Seq<Seq<char>>,
    harnesses: Seq<Seq<char>>,
    row: GraphRow,
    v: TaskGraphView,
    k: int,
)
    requires
        shows_graph(names, harnesses, row, v),
    ensures
        v.task.id == row.status.task.id,
        v.scheduling_state == row.status.task.scheduling,
        v.worker_queue_position == row.position,
        v.waiting_for_worker == row.waiting_for_worker,
        v.waiting_for_session == row.waiting_for_session,
        v.waiting_for_repository == row.waiting_for_repository,
        v.dependencies@.len() == row.dependencies@.len(),
        v.dependents@.len() == row.dependents@.len(),
        0 <= k < row.dependencies@.len() ==> {
            let (d, e) = (row.dependencies@[k], v.dependencies@[k]);
            &&& e.task_id == d.upstream
            &&& e.condition == d.condition
            &&& e.failure_policy == d.policy
            &&& e.satisfied_by_result_revision == d.satisfied
        },
        0 <= k < row.dependents@.len() ==> v.dependents@[k] == row.dependents@[k].task,
{
}

/// A Message is shown with its own identity, Task, sender, kind and body, and how far it got.
pub proof fn messages_are_shown_as_they_are(
    names: Seq<Seq<char>>,
    harnesses: Seq<Seq<char>>,
    row: InboxRow,
    v: InboxMessageView,
)
    requires
        shows_message(names, harnesses, row, v),
    ensures
        v.id == row.message.id,
        v.task_id == row.message.task,
        row.message.sender < harnesses.len(),
        v.sender_id@ == harnesses[row.message.sender as int],
        row.message.body < names.len(),
        v.body@ == names[row.message.body as int],
        v.kind@ == row.message.kind.name(),
        row.delivery is None <==> v.delivery_state is None,
        row.delivery is Some ==> v.delivery_state->0@ == row.delivery->0.name(),
{
}

/// An event is shown with its own identity, kind, Task, revision, Message, intent, state and
/// Attachments, and in the words that it was given, where it was given any.
pub proof fn events_are_shown_as_they_are(
    names: Seq<Seq<char>>,
    row: EventStatusRow,
    created_at: Seq<char>,
    v: SupervisorEventView,
    text: TextKey,
)
    requires
        shows_event(names, row, created_at, v),
    ensures
        v.id == row.event.id,
        v.kind == row.event.kind,
        v.task_id == row.event.task,
        v.result_revision == row.event.revision,
        v.source_message_id == row.event.message,
        v.state == row.event.state,
        v.delivery_intent == row.event.intent,
        v.attachments@ == row.attachments@,
        v.created_at@ == created_at,
        row.event.summary == Some(Wording::Given { text }) ==> text < names.len() && v.summary@
            == names[text as int],
{
}

/// A Session is shown to its Host with its own identity, its native identities, its profile, its
/// presence and activity, and the number of its last event.
pub proof fn sessions_are_shown_as_they_are(
    names: Seq<Seq<char>>,
    s: SessionRow,
    definition: TextKey,
    v: SessionSelfView,
)
    requires
        shows_session(names, s, definition, v),
    ensures
        v.session_id == s.id,
        v.event_sequence == s.event_sequence,
        v.presence@ == s.presence.name(),
        v.activity@ == s.activity.name(),
        definition < names.len(),
        v.definition@ == names[definition as int],
        s.profile is Some && s.profile->0 < names.len() ==> optional_text(v.profile_digest) == Some(
            names[s.profile->0 as int],
        ),
        s.source is Some && s.source->0 < names.len() ==> optional_text(v.profile_snapshot) == Some(
            names[s.source->0 as int],
        ),
        s.native_session is Some && s.native_session->0 < names.len() ==> optional_text(
            v.native_session_id,
        ) == Some(names[s.native_session->0 as int]),
        s.native_thread is Some && s.native_thread->0 < names.len() ==> optional_text(
            v.native_thread_id,
        ) == Some(names[s.native_thread->0 as int]),
        s.native_session is None ==> v.native_session_id is None,
        s.native_thread is None ==> v.native_thread_id is None,
{
}

/// An event says the words that it was given; without any it says what its origin means.
pub proof fn events_say_what_they_were_given(names: Seq<Seq<char>>, e: EventRow, text: TextKey)
    ensures
        e.summary == Some(Wording::Given { text }) && text < names.len() ==> event_summary(names, e)
            == Some(names[text as int]),
        e.summary is None ==> event_summary(names, e) == fixed_summary(e.origin),
        e.summary is None && e.origin is Hold ==> event_summary(names, e) is Some,
        e.summary is None && (e.origin is TaskFailed || e.origin is TurnSettlementHold || e.origin
            is GraphCompleted) ==> event_summary(names, e) is Some,
{
}

// ---------------------------------------------------------------------------------------------
// Queries
// ---------------------------------------------------------------------------------------------

/// A query is answered with what it asks for: every Task in its order, the one Task with an
/// identity, every Harness, every event, and the one Attachment with an identity.
pub proof fn queries_are_answered_with_their_rows(
    m: Model,
    actor: AuthenticatedActor,
    query: CoordinatorQuery,
    rows: QueryRows,
    i: int,
)
    requires
        answers(m, actor, query, rows),
    ensures
        query is ListTasks ==> rows is Tasks && rows->Tasks_0@.len() == m.tasks.len() && (0 <= i
            < m.tasks.len() ==> rows->Tasks_0@[i].task == m.tasks[i]),
        query is TaskGraph ==> rows is TaskGraph && rows->TaskGraph_0@.len() == m.tasks.len() && (0
            <= i < m.tasks.len() ==> rows->TaskGraph_0@[i].status.task == m.tasks[i]),
        query is ListHarnesses ==> rows is Harnesses && rows->Harnesses_0@.len()
            == m.harnesses.len() && (0 <= i < m.harnesses.len() ==> rows->Harnesses_0@[i]
            == m.harnesses[i].key),
        query is HarnessStatus ==> rows is HarnessStatus && rows->HarnessStatus_0@.len()
            == m.harnesses.len() && (0 <= i < m.harnesses.len() ==> rows->HarnessStatus_0@[i].key
            == m.harnesses[i].key),
        query is SupervisorEvents ==> rows is SupervisorEvents && rows->SupervisorEvents_0@.len()
            == m.events.len() && (0 <= i < m.events.len() ==> rows->SupervisorEvents_0@[i].event
            == m.events[i]),
        query matches CoordinatorQuery::GetTask { task_id } ==> rows is Task && (stands(
            m,
            task_id,
            i,
        ) ==> rows->Task_0.task == m.tasks[i]),
        query matches CoordinatorQuery::GetAttachment { attachment_id } ==> rows is Attachment
            && rows->Attachment_0.id == attachment_id && m.attachments.contains(rows->Attachment_0),
        query is SessionSelf ==> rows is SessionSelf && rows->SessionSelf_0.id == actor.session
            && !rows->SessionSelf_0.ended,
{
    match query {
        CoordinatorQuery::GetTask { task_id } => {
            if stands(m, task_id, i) {
                places_are_found(m, task_id, i);
            }
        },
        CoordinatorQuery::GetAttachment { attachment_id } => {
            first_says(m.attachments, is_attachment(attachment_id));
        },
        CoordinatorQuery::SessionSelf => {
            first_says(m.sessions, is_live_session(actor.session));
        },
        _ => {},
    }
}

/// Who calls is looked up by the digest of the bearer, among what is stored; a bearer whose digest
/// is not stored stands for nobody.
pub proof fn bearers_are_looked_up_by_their_digest(
    actor: ActorContext,
    stored: Seq<Seq<char>>,
    i: int,
)
    requires
        stored.len() <= u64::MAX,
    ensures
        match actor {
            ActorContext::Bootstrap => caller_of(actor, stored) == Caller::Bootstrap,
            ActorContext::Session { capability } => match caller_of(actor, stored) {
                Caller::Session { capability: Some(k) } => k < stored.len() && stored[k as int]
                    == digest_form(vstd::utf8::encode_utf8(capability@)),
                Caller::Session { capability: None } => 0 <= i < stored.len() ==> stored[i]
                    != digest_form(vstd::utf8::encode_utf8(capability@)),
                _ => false,
            },
            ActorContext::Host { capability } => match caller_of(actor, stored) {
                Caller::Host { capability: Some(k) } => k < stored.len() && stored[k as int]
                    == digest_form(vstd::utf8::encode_utf8(capability@)),
                Caller::Host { capability: None } => 0 <= i < stored.len() ==> stored[i]
                    != digest_form(vstd::utf8::encode_utf8(capability@)),
                _ => false,
            },
        },
{
}

} // verus!

//! Projections: rows with the texts that their numbers stand for.
use vstd::prelude::*;

use crate::contract::{activity_name, presence_name};
use crate::identity::{HarnessId, TaskId};
use crate::ledger::binding::{binding_reason, binding_words};
use crate::ledger::notices::{
    event_summary, hold_reason_name, name_hold_reason, write_event_summary,
};
use crate::ledger::queries::{EventStatusRow, GraphRow, HarnessStatusRow, InboxRow, TaskStatusRow};
use crate::names::{named, NameTable};
use crate::rows::{BindingRow, DependencyRow, HoldRow, SessionRow, TextKey};
use crate::text::optional_text;
use crate::views::{
    HarnessStatusView, HoldView, InboxMessageView, SessionSelfView, SupervisorEventView,
    TaskDependencyView, TaskGraphView, TaskView,
};

verus! {

// ---------------------------------------------------------------------------------------------
// Names
// ---------------------------------------------------------------------------------------------

/// A number names something, or there is none.
pub open spec fn resolves(names: Seq<Seq<char>>, key: Option<TextKey>) -> bool {
    key is Some ==> named(names, key->0) is Some
}

/// The text of an optional number.
pub open spec fn text_of(names: Seq<Seq<char>>, key: Option<TextKey>) -> Option<Seq<char>> {
    match key {
        Some(key) => named(names, key),
        None => None,
    }
}

fn write_name(names: &NameTable, key: TextKey) -> (r: Option<String>)
    ensures
        optional_text(r) == named(names@, key),
{
    match names.name(key) {
        Some(text) => Some(text.to_owned()),
        None => None,
    }
}

fn write_text(names: &NameTable, key: Option<TextKey>) -> (r: Result<Option<String>, ()>)
    ensures
        match r {
            Ok(text) => resolves(names@, key) && optional_text(text) == text_of(names@, key),
            Err(_) => !resolves(names@, key),
        },
{
    match key {
        None => Ok(None),
        Some(key) => match write_name(names, key) {
            Some(text) => Ok(Some(text)),
            None => Err(()),
        },
    }
}

// ---------------------------------------------------------------------------------------------
// Events and Messages
// ---------------------------------------------------------------------------------------------

/// What an event shows: its own values, what it says, and the Attachments that come with it.
pub open spec fn shows_event(
    names: Seq<Seq<char>>,
    row: EventStatusRow,
    created_at: Seq<char>,
    v: SupervisorEventView,
) -> bool {
    &&& v.id == row.event.id
    &&& v.kind == row.event.kind
    &&& v.task_id == row.event.task
    &&& v.result_revision == row.event.revision
    &&& v.source_message_id == row.event.message
    &&& Some(v.summary@) == event_summary(names, row.event)
    &&& v.attachments@ == row.attachments@
    &&& v.delivery_intent == row.event.intent
    &&& v.state == row.event.state
    &&& v.created_at@ == created_at
}

/// Shows an event that was made at an instant; none where its words have no text.
pub fn present_event(names: &NameTable, row: EventStatusRow, created_at: String) -> (r: Option<
    SupervisorEventView,
>)
    ensures
        match r {
            Some(v) => shows_event(names@, row, created_at@, v),
            None => event_summary(names@, row.event) is None,
        },
{
    let e = row.event;
    match write_event_summary(names, e) {
        None => None,
        Some(summary) => Some(
            SupervisorEventView {
                id: e.id,
                kind: e.kind,
                task_id: e.task,
                result_revision: e.revision,
                source_message_id: e.message,
                summary,
                attachments: row.attachments,
                delivery_intent: e.intent,
                state: e.state,
                created_at,
            },
        ),
    }
}

/// What a Message in an inbox shows: its body as it was given.
pub open spec fn shows_message(
    names: Seq<Seq<char>>,
    harnesses: Seq<Seq<char>>,
    row: InboxRow,
    v: InboxMessageView,
) -> bool {
    &&& v.id == row.message.id
    &&& v.task_id == row.message.task
    &&& Some(v.sender_id@) == named(harnesses, row.message.sender)
    &&& v.kind@ == row.message.kind.name()
    &&& Some(v.body@) == named(names, row.message.body)
    &&& optional_text(v.delivery_state) == (match row.delivery {
        Some(state) => Some(state.name()),
        None => None,
    })
}

/// Shows a Message of an inbox; none where its sender or its body has no text.
pub fn present_message(names: &NameTable, harnesses: &NameTable, row: InboxRow) -> (r: Option<
    InboxMessageView,
>)
    ensures
        match r {
            Some(v) => shows_message(names@, harnesses@, row, v),
            None => named(harnesses@, row.message.sender) is None || named(
                names@,
                row.message.body,
            ) is None,
        },
{
    let delivery_state = match row.delivery {
        Some(state) => Some(state.as_str().to_owned()),
        None => None,
    };
    match (write_name(harnesses, row.message.sender), write_name(names, row.message.body)) {
        (Some(sender), Some(body)) => Some(
            InboxMessageView {
                id: row.message.id,
                task_id: row.message.task,
                sender_id: HarnessId(sender),
                kind: row.message.kind.as_str().to_owned(),
                body,
                delivery_state,
            },
        ),
        _ => None,
    }
}

// ---------------------------------------------------------------------------------------------
// Tasks
// ---------------------------------------------------------------------------------------------

/// What a Task shows of its Session binding.
pub open spec fn shows_binding(
    names: Seq<Seq<char>>,
    binding: Option<BindingRow>,
    v: TaskView,
) -> bool {
    match binding {
        Some(b) => {
            &&& v.effective_session_policy == Some(b.effective)
            &&& v.harness_session_id == Some(b.session)
            &&& v.session_reused == Some(b.reused)
            &&& optional_text(v.session_decision_reason) == binding_words(names, b.reason)
            &&& optional_text(v.context_percent) == text_of(names, b.adapter.context_percent)
        },
        None => {
            &&& v.effective_session_policy is None
            &&& v.harness_session_id is None
            &&& v.session_reused is None
            &&& v.session_decision_reason is None
            &&& v.context_percent is None
        },
    }
}

/// What a Task shows, with the Session that it is bound to and why.
pub open spec fn shows_task(
    names: Seq<Seq<char>>,
    harnesses: Seq<Seq<char>>,
    row: TaskStatusRow,
    v: TaskView,
) -> bool {
    &&& v.id == row.task.id
    &&& Some(v.worker_id@) == named(harnesses, row.task.worker)
    &&& v.state == row.task.state
    &&& v.result_revision == row.task.revision
    &&& v.task_role == row.task.role
    &&& v.requested_session_policy == row.task.policy
    &&& shows_binding(names, row.binding, v)
}

/// Every number that a Task shows as a text names one.
pub open spec fn task_resolves(
    names: Seq<Seq<char>>,
    harnesses: Seq<Seq<char>>,
    row: TaskStatusRow,
) -> bool {
    named(harnesses, row.task.worker) is Some && (row.binding is Some ==> binding_words(
        names,
        row.binding->0.reason,
    ) is Some && resolves(names, row.binding->0.adapter.context_percent))
}

/// Shows a Task; none where a number that it shows has no text.
pub fn present_task(names: &NameTable, harnesses: &NameTable, row: TaskStatusRow) -> (r: Option<
    TaskView,
>)
    ensures
        match r {
            Some(v) => task_resolves(names@, harnesses@, row) && shows_task(
                names@,
                harnesses@,
                row,
                v,
            ),
            None => !task_resolves(names@, harnesses@, row),
        },
{
    let worker = match write_name(harnesses, row.task.worker) {
        Some(worker) => worker,
        None => {
            return None;
        },
    };
    let (reason, percent) = match row.binding {
        None => (None, None),
        Some(b) => match (
            binding_reason(names, b.reason),
            write_text(names, b.adapter.context_percent),
        ) {
            (Some(reason), Ok(percent)) => (Some(reason), percent),
            _ => {
                return None;
            },
        },
    };
    let (effective, session, reused) = match row.binding {
        None => (None, None, None),
        Some(b) => (Some(b.effective), Some(b.session), Some(b.reused)),
    };
    Some(
        TaskView {
            id: row.task.id,
            worker_id: HarnessId(worker),
            state: row.task.state,
            result_revision: row.task.revision,
            task_role: row.task.role,
            requested_session_policy: row.task.policy,
            effective_session_policy: effective,
            harness_session_id: session,
            session_reused: reused,
            session_decision_reason: reason,
            context_percent: percent,
        },
    )
}

pub open spec fn shown_edge(d: DependencyRow) -> TaskDependencyView {
    TaskDependencyView {
        task_id: d.upstream,
        condition: d.condition,
        failure_policy: d.policy,
        satisfied_by_result_revision: d.satisfied,
    }
}

fn show_edges(rows: &Vec<DependencyRow>) -> (r: Vec<TaskDependencyView>)
    ensures
        r@ == rows@.map_values(|d: DependencyRow| shown_edge(d)),
{
    let mut r: Vec<TaskDependencyView> = Vec::new();
    let mut i: usize = 0;
    while i < rows.len()
        invariant
            i <= rows.len(),
            r@.len() == i,
            forall|j: int| 0 <= j < i ==> #[trigger] r@[j] == shown_edge(rows@[j]),
        decreases rows.len() - i,
    {
        let d = rows[i];
        r.push(
            TaskDependencyView {
                task_id: d.upstream,
                condition: d.condition,
                failure_policy: d.policy,
                satisfied_by_result_revision: d.satisfied,
            },
        );
        i += 1;
    }
    assert(r@ =~= rows@.map_values(|d: DependencyRow| shown_edge(d)));
    r
}

fn show_dependents(rows: &Vec<DependencyRow>) -> (r: Vec<TaskId>)
    ensures
        r@ == rows@.map_values(|d: DependencyRow| d.task),
{
    let mut r: Vec<TaskId> = Vec::new();
    let mut i: usize = 0;
    while i < rows.len()
        invariant
            i <= rows.len(),
            r@.len() == i,
            forall|j: int| 0 <= j < i ==> #[trigger] r@[j] == rows@[j].task,
        decreases rows.len() - i,
    {
        r.push(rows[i].task);
        i += 1;
    }
    assert(r@ =~= rows@.map_values(|d: DependencyRow| d.task));
    r
}

/// What a Task shows in the graph.
pub open spec fn shows_graph(
    names: Seq<Seq<char>>,
    harnesses: Seq<Seq<char>>,
    row: GraphRow,
    v: TaskGraphView,
) -> bool {
    &&& shows_task(names, harnesses, row.status, v.task)
    &&& v.scheduling_state == row.status.task.scheduling
    &&& v.dependencies@ == row.dependencies@.map_values(|d: DependencyRow| shown_edge(d))
    &&& v.dependents@ == row.dependents@.map_values(|d: DependencyRow| d.task)
    &&& v.worker_queue_position == row.position
    &&& v.waiting_for_worker == row.waiting_for_worker
    &&& v.waiting_for_session == row.waiting_for_session
    &&& v.waiting_for_repository == row.waiting_for_repository
}

/// Shows a Task in the graph; none where a number that it shows has no text.
pub fn present_graph(names: &NameTable, harnesses: &NameTable, row: &GraphRow) -> (r: Option<
    TaskGraphView,
>)
    ensures
        match r {
            Some(v) => shows_graph(names@, harnesses@, *row, v),
            None => !task_resolves(names@, harnesses@, row.status),
        },
{
    match present_task(names, harnesses, row.status) {
        None => None,
        Some(task) => Some(
            TaskGraphView {
                task,
                scheduling_state: row.status.task.scheduling,
                dependencies: show_edges(&row.dependencies),
                dependents: show_dependents(&row.dependents),
                worker_queue_position: row.position,
                waiting_for_worker: row.waiting_for_worker,
                waiting_for_session: row.waiting_for_session,
                waiting_for_repository: row.waiting_for_repository,
            },
        ),
    }
}

// ---------------------------------------------------------------------------------------------
// Harnesses, Sessions and Holds
// ---------------------------------------------------------------------------------------------

/// Shows a Harness; none where its number has no name.
pub fn present_harness(harnesses: &NameTable, row: HarnessStatusRow) -> (r: Option<
    HarnessStatusView,
>)
    ensures
        match r {
            Some(v) => {
                &&& Some(v.id@) == named(harnesses@, row.key)
                &&& v.tier == row.tier
                &&& v.presence@ == row.presence.name()
                &&& v.activity@ == row.activity.name()
                &&& v.unread_messages == row.unread
                &&& v.active_task_id == row.active_task
            },
            None => named(harnesses@, row.key) is None,
        },
{
    match write_name(harnesses, row.key) {
        None => None,
        Some(name) => Some(
            HarnessStatusView {
                id: HarnessId(name),
                tier: row.tier,
                presence: presence_name(row.presence).to_owned(),
                activity: activity_name(row.activity).to_owned(),
                unread_messages: row.unread,
                active_task_id: row.active_task,
            },
        ),
    }
}

/// Shows a Hold; none where its worktree has no name.
pub fn present_hold(roots: &NameTable, row: HoldRow) -> (r: Option<HoldView>)
    ensures
        match r {
            Some(v) => {
                &&& v.id == row.id
                &&& Some(v.repository_key@) == named(roots@, row.worktree)
                &&& v.task_id == row.task
                &&& v.reason@ == hold_reason_name(row.reason)
            },
            None => named(roots@, row.worktree) is None,
        },
{
    match write_name(roots, row.worktree) {
        None => None,
        Some(root) => Some(
            HoldView {
                id: row.id,
                repository_key: root,
                task_id: row.task,
                reason: name_hold_reason(row.reason).to_owned(),
            },
        ),
    }
}

/// What a Session shows to its own Host: the definition of its Harness, the launch profile that it
/// was started with, and the native identities that it had.
pub open spec fn shows_session(
    names: Seq<Seq<char>>,
    s: SessionRow,
    definition: TextKey,
    v: SessionSelfView,
) -> bool {
    &&& v.session_id == s.id
    &&& optional_text(v.native_session_id) == text_of(names, s.native_session)
    &&& optional_text(v.native_thread_id) == text_of(names, s.native_thread)
    &&& Some(v.definition@) == named(names, definition)
    &&& optional_text(v.profile_snapshot) == text_of(names, s.source)
    &&& optional_text(v.profile_digest) == text_of(names, s.profile)
    &&& v.presence@ == s.presence.name()
    &&& v.activity@ == s.activity.name()
    &&& v.event_sequence == s.event_sequence
}

/// Every number that a Session shows as a text names one.
pub open spec fn session_resolves(
    names: Seq<Seq<char>>,
    s: SessionRow,
    definition: TextKey,
) -> bool {
    &&& named(names, definition) is Some
    &&& resolves(names, s.native_session)
    &&& resolves(names, s.native_thread)
    &&& resolves(names, s.source)
    &&& resolves(names, s.profile)
}

/// Shows a Session to its own Host; none where a number that it shows has no text.
pub fn present_session(names: &NameTable, s: SessionRow, definition: TextKey) -> (r: Option<
    SessionSelfView,
>)
    ensures
        match r {
            Some(v) => session_resolves(names@, s, definition) && shows_session(
                names@,
                s,
                definition,
                v,
            ),
            None => !session_resolves(names@, s, definition),
        },
{
    let definition = match write_name(names, definition) {
        Some(text) => text,
        None => {
            return None;
        },
    };
    match (
        write_text(names, s.native_session),
        write_text(names, s.native_thread),
        write_text(names, s.source),
        write_text(names, s.profile),
    ) {
        (Ok(native_session_id), Ok(native_thread_id), Ok(profile_snapshot), Ok(profile_digest)) => {
            Some(
                SessionSelfView {
                    session_id: s.id,
                    native_session_id,
                    native_thread_id,
                    definition,
                    profile_snapshot,
                    profile_digest,
                    presence: presence_name(s.presence).to_owned(),
                    activity: activity_name(s.activity).to_owned(),
                    event_sequence: s.event_sequence,
                },
            )
        },
        _ => None,
    }
}

} // verus!

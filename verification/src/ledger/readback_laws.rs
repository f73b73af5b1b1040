//! What is given to the ledger is what it hands on: Messages, submissions, Results, Attachments,
//! and the words of events come back as they were given.
use vstd::prelude::*;

use crate::contract::{
    DependencyCondition, MessageKind, ObservationCheckpoint, SessionReusePolicy,
    SupervisorEventDeliveryState, SupervisorEventKind, TaskState,
};
use crate::error::Refusal;
use crate::identity::{AttachmentId, MessageId, SupervisorEventId, TaskId};
use crate::ledger::accounts::{accountable, accounts, grounded, knows, rooted};
use crate::ledger::attention::{reconcile_event, SupervisorEventResolution};
use crate::ledger::attention_laws::same_event;
use crate::ledger::binding::{selection_refusal, BindingQuestion};
use crate::ledger::create::{
    admit_attachment, attach, attached_rows, attachments_of, create_task, creation_refusal,
    find_attachment, is_attached_to, is_attachment, is_refused_dependency, placed, recall,
    DeclaredDependency, KeyedRequest, NewTask,
};
use crate::ledger::dependencies::{is_result, look_at_edges, reevaluate};
use crate::ledger::dispatch::{blocked_words, DispatchFacts};
use crate::ledger::events::{claim_event, is_pending};
use crate::ledger::evidence::{out_of_scope, record_checkpoint, NewObservation};
use crate::ledger::frames::{process_events_frame, transition_frame};
use crate::ledger::hosts::{
    compatible, host_compatibility, HarnessCompatibilityEvidenceV1, NativeFindings,
};
use crate::ledger::messages::{
    complete_task, heed, posted, put_waiting, send_message, stored_kind, NewMessage, NewResult,
};
use crate::ledger::notices::wording;
use crate::ledger::propagation::satisfy_downstream;
use crate::ledger::queries::{event_attachments, gives_inputs, inbox, inbox_row, is_unread};
use crate::ledger::reconcile::{doubted, mark_delivery_unknown};
use crate::ledger::settlement::{
    hold_for_turn, is_result_of_turn, record_turn_completed, report_result, result_of_turn,
    supervisor, terminal,
};
use crate::ledger::steps::{is_read, process_events_upto, transition};
use crate::ledger::submit::verdict_agrees;
use crate::ledger::{
    complete_watches_upto, find_task, is_attempt_of, is_event_from, is_live_session, is_message,
    is_task, record_transition, record_transition_frame, Model,
};
use crate::rows::{
    AttachmentOwner, AttachmentRow, AuthenticatedActor, EventOrigin, HarnessKey, KeyedOutcome,
    MessageRow, ResultRow, StoredMessageKind, TaskRow, TextKey, TransitionReason, TransitionRow,
    Wording,
};
use crate::select::{
    first_found, first_says, first_where, keep_where, last_says, last_where, some_where,
    update_where,
};
use crate::views::ResolvedTaskInputView;

verus! {

// ---------------------------------------------------------------------------------------------
// Steps
// ---------------------------------------------------------------------------------------------

proof fn kept_after<A>(s: Seq<A>, t: Seq<A>, p: spec_fn(A) -> bool)
    ensures
        keep_where(s + t, p) == keep_where(s, p) + keep_where(t, p),
    decreases t.len(),
{
    if t.len() == 0 {
        assert(s + t =~= s);
        assert(keep_where(s, p) + keep_where(t, p) =~= keep_where(s, p));
    } else {
        assert((s + t).drop_last() =~= s + t.drop_last());
        kept_after(s, t.drop_last(), p);
        assert(keep_where(s + t, p) =~= keep_where(s, p) + keep_where(t, p));
    }
}

proof fn all_kept<A>(s: Seq<A>, p: spec_fn(A) -> bool)
    requires
        forall|i: int| 0 <= i < s.len() ==> p(#[trigger] s[i]),
    ensures
        keep_where(s, p) == s,
    decreases s.len(),
{
    if s.len() > 0 {
        assert(p(s[s.len() - 1]));
        assert forall|i: int| 0 <= i < s.drop_last().len() implies p(
            #[trigger] s.drop_last()[i],
        ) by {
            assert(p(s[i]));
        }
        all_kept(s.drop_last(), p);
        assert(s.drop_last().push(s.last()) =~= s);
    }
}

proof fn none_kept<A>(s: Seq<A>, p: spec_fn(A) -> bool)
    requires
        !some_where(s, p),
    ensures
        keep_where(s, p) == Seq::<A>::empty(),
    decreases s.len(),
{
    if s.len() > 0 {
        assert(!p(s[s.len() - 1]));
        assert(!some_where(s.drop_last(), p)) by {
            assert forall|i: int| 0 <= i < s.drop_last().len() implies !p(
                #[trigger] s.drop_last()[i],
            ) by {
                assert(!p(s[i]));
            }
        }
        none_kept(s.drop_last(), p);
    } else {
        assert(s =~= Seq::<A>::empty());
    }
}

/// What an owner names is what it named before and then what is attached to it.
pub proof fn attached_files_are_listed(m: Model, owner: AttachmentOwner, ids: Seq<AttachmentId>)
    ensures
        attachments_of(attach(m, owner, ids), owner) == attachments_of(m, owner) + ids,
{
    let rows = attached_rows(owner, ids);
    kept_after(m.attached, rows, is_attached_to(owner));
    all_kept(rows, is_attached_to(owner));
    assert(attachments_of(attach(m, owner, ids), owner) =~= attachments_of(m, owner) + ids);
}

/// Nothing is attached to an owner.
pub open spec fn bare(m: Model, owner: AttachmentOwner) -> bool {
    !some_where(m.attached, is_attached_to(owner))
}

proof fn bare_owners_name_nothing(m: Model, owner: AttachmentOwner)
    requires
        bare(m, owner),
    ensures
        attachments_of(m, owner) == Seq::<AttachmentId>::empty(),
{
    none_kept(m.attached, is_attached_to(owner));
    assert(attachments_of(m, owner) =~= Seq::<AttachmentId>::empty());
}

/// Watches that complete make events about their graphs and no others.
proof fn watches_tell_of_graphs(m: Model, n: nat, origin: EventOrigin)
    requires
        !(origin is GraphCompleted),
        !some_where(m.events, is_event_from(origin)),
    ensures
        !some_where(complete_watches_upto(m, n).events, is_event_from(origin)),
    decreases n,
{
    if n > 0 {
        watches_tell_of_graphs(m, (n - 1) as nat, origin);
        let before = complete_watches_upto(m, (n - 1) as nat);
        let after = complete_watches_upto(m, n);
        assert forall|k: int| 0 <= k < after.events.len() implies !is_event_from(origin)(
            #[trigger] after.events[k],
        ) by {
            if k < before.events.len() {
                assert(!is_event_from(origin)(before.events[k]));
            }
        }
    }
}

/// A transition that fails no Task makes events about graphs at most.
proof fn transitions_tell_of_graphs(
    m: Model,
    task: TaskId,
    from: TaskState,
    to: TaskState,
    reason: TransitionReason,
    origin: EventOrigin,
)
    requires
        to != TaskState::Failed,
        !(origin is GraphCompleted),
        !some_where(m.events, is_event_from(origin)),
    ensures
        !some_where(
            record_transition(m, task, from, to, reason).events,
            is_event_from(origin),
        ),
{
    let logged = Model {
        transitions: m.transitions.push(
            TransitionRow { task, from: Some(from), to, reason },
        ),
        ..m
    };
    watches_tell_of_graphs(logged, logged.watches.len(), origin);
}

// ---------------------------------------------------------------------------------------------
// Messages
// ---------------------------------------------------------------------------------------------

/// The Message that a submission becomes.
pub open spec fn sent_row(actor: AuthenticatedActor, new: NewMessage) -> MessageRow {
    MessageRow {
        id: new.id,
        task: new.task,
        sender: actor.id,
        recipient: new.to,
        kind: stored_kind(new.kind),
        reply_to: new.reply_to,
        intent: new.delivery,
        body: new.body,
    }
}

proof fn heeding_keeps_messages(m: Model, new: NewMessage)
    ensures
        heed(m, new).messages == m.messages,
        heed(m, new).attached == m.attached,
        heed(m, new).attempts == m.attempts,
{
    if let Some(id) = new.task {
        let i = first_where(m.tasks, is_task(id))->0;
        record_transition_frame(
            Model {
                tasks: m.tasks.update(i, TaskRow { state: TaskState::Waiting, ..m.tasks[i] }),
                ..m
            },
            id,
            TaskState::Working,
            TaskState::Waiting,
            TransitionReason::Plain,
        );
        process_events_frame(
            m,
            SupervisorEventKind::BlockingQuestion,
            id,
            None,
            m.events.len(),
        );
        process_events_frame(
            m,
            SupervisorEventKind::ResultReady,
            id,
            None,
            m.events.len(),
        );
    }
}

/// A Message that is sent is stored as it was given, with the Attachments that it names.
pub proof fn sent_messages_are_stored(
    m: Model,
    actor: AuthenticatedActor,
    q: KeyedRequest,
    new: NewMessage,
    attachments: Seq<AttachmentId>,
)
    requires
        send_message(m, actor, q, new, attachments) is Ok,
        recall(m, q) == Ok::<Option<KeyedOutcome>, Refusal>(None),
    ensures
        ({
            let next = send_message(m, actor, q, new, attachments)->Ok_0.0;
            let owner = AttachmentOwner::Message { message: new.id };
            &&& next.messages == m.messages.push(sent_row(actor, new))
            &&& first_where(next.messages, is_message(new.id)) == Some(m.messages.len() as int)
            &&& attachments_of(next, owner) == attachments_of(m, owner) + attachments
        }),
{
    let next = send_message(m, actor, q, new, attachments)->Ok_0.0;
    let owner = AttachmentOwner::Message { message: new.id };
    let sent = posted(m, actor, new);
    heeding_keeps_messages(sent, new);
    attached_files_are_listed(heed(sent, new), owner, attachments);
    assert(next.attached == attach(heed(sent, new), owner, attachments).attached);
    assert(attachments_of(heed(sent, new), owner) == attachments_of(m, owner));
    first_says(m.messages, is_message(new.id));
    assert(first_where(m.messages, is_message(new.id)) is None);
    assert forall|j: int| 0 <= j < m.messages.len() implies !is_message(new.id)(
        #[trigger] next.messages[j],
    ) by {
        assert(!is_message(new.id)(m.messages[j]));
    }
    first_found(next.messages, is_message(new.id), m.messages.len() as int);
}

proof fn settling_reads_sources_only(
    m: Model,
    kind: SupervisorEventKind,
    task: TaskId,
    n: nat,
    id: MessageId,
    reader: HarnessKey,
)
    requires
        n <= m.events.len(),
        !some_where(m.reads, is_read(reader, id)),
        forall|i: int| 0 <= i < m.events.len() ==> (#[trigger] m.events[i]).message != Some(id),
    ensures
        ({
            let after = process_events_upto(m, kind, task, None, n);
            &&& !some_where(after.reads, is_read(reader, id))
            &&& after.events.len() == m.events.len()
            &&& forall|i: int|
                0 <= i < m.events.len() ==> (#[trigger] after.events[i]).message != Some(id)
        }),
    decreases n,
{
    if n > 0 {
        settling_reads_sources_only(m, kind, task, (n - 1) as nat, id, reader);
        let before = process_events_upto(
            m,
            kind,
            task,
            None,
            (n - 1) as nat,
        );
        let after = process_events_upto(m, kind, task, None, n);
        assert(before.events[n - 1].message != Some(id));
        assert forall|k: int| 0 <= k < after.reads.len() implies !is_read(reader, id)(
            #[trigger] after.reads[k],
        ) by {
            if k < before.reads.len() {
                assert(!is_read(reader, id)(before.reads[k]));
            }
        }
    }
}

/// Nothing refers to a Message before it is recorded.
proof fn new_messages_are_unheard_of(m: Model, id: MessageId)
    requires
        accountable(m),
        first_where(m.messages, is_message(id)) is None,
    ensures
        forall|i: int| 0 <= i < m.reads.len() ==> (#[trigger] m.reads[i]).message != id,
        forall|i: int| 0 <= i < m.events.len() ==> (#[trigger] m.events[i]).message != Some(id),
        !some_where(m.events, is_event_from(EventOrigin::Question { message: id })),
        bare(m, AttachmentOwner::Message { message: id }),
{
    reveal(accounts);
    first_says(m.messages, is_message(id));
    assert(!knows(m.messages, id)) by {
        assert forall|i: int| 0 <= i < m.messages.len() implies (#[trigger] m.messages[i]).id
            != id by {
            assert(!is_message(id)(m.messages[i]));
        }
    }
    assert forall|i: int| 0 <= i < m.events.len() implies (#[trigger] m.events[i]).message != Some(
        id,
    ) && m.events[i].origin != (EventOrigin::Question { message: id }) by {
        assert(grounded(m.messages, m.events[i]));
    }
    assert forall|i: int| 0 <= i < m.attached.len() implies (#[trigger] m.attached[i]).owner != (
    AttachmentOwner::Message { message: id }) by {
        assert(rooted(m.messages, m.attached[i]));
    }
}

/// A Message that is sent stands in the inbox of its recipient, with its body as it was given.
pub proof fn sent_messages_reach_the_inbox(
    m: Model,
    actor: AuthenticatedActor,
    q: KeyedRequest,
    new: NewMessage,
    attachments: Seq<AttachmentId>,
)
    requires
        send_message(m, actor, q, new, attachments) is Ok,
        recall(m, q) == Ok::<Option<KeyedOutcome>, Refusal>(None),
        accountable(m),
    ensures
        ({
            let next = send_message(m, actor, q, new, attachments)->Ok_0.0;
            let shown = inbox(next, new.to);
            let owner = AttachmentOwner::Message { message: new.id };
            &&& shown.len() > 0
            &&& shown.last().message == sent_row(actor, new)
            &&& shown.last().message.id == new.id
            &&& shown.last().message.body == new.body
            &&& attachments_of(next, owner) == attachments
        }),
{
    let next = send_message(m, actor, q, new, attachments)->Ok_0.0;
    let owner = AttachmentOwner::Message { message: new.id };
    let sent = posted(m, actor, new);
    sent_messages_are_stored(m, actor, q, new, attachments);
    new_messages_are_unheard_of(m, new.id);
    bare_owners_name_nothing(m, owner);
    assert(attachments_of(next, owner) =~= attachments);
    assert(!some_where(m.reads, is_read(new.to, new.id)));
    assert(next.reads == heed(sent, new).reads);
    assert(!some_where(next.reads, is_read(new.to, new.id))) by {
        if let Some(id) = new.task {
            let i = first_where(sent.tasks, is_task(id))->0;
            record_transition_frame(
                Model {
                    tasks: sent.tasks.update(
                        i,
                        TaskRow { state: TaskState::Waiting, ..sent.tasks[i] },
                    ),
                    ..sent
                },
                id,
                TaskState::Working,
                TaskState::Waiting,
                TransitionReason::Plain,
            );
            settling_reads_sources_only(
                sent,
                SupervisorEventKind::BlockingQuestion,
                id,
                sent.events.len(),
                new.id,
                new.to,
            );
            settling_reads_sources_only(
                sent,
                SupervisorEventKind::ResultReady,
                id,
                sent.events.len(),
                new.id,
                new.to,
            );
        }
    }
    let p = is_unread(next, new.to);
    assert(p(next.messages.last()));
    let kept = keep_where(next.messages, p);
    assert(kept.last() == sent_row(actor, new));
    let shown = inbox(next, new.to);
    assert(shown.last() == inbox_row(next, kept.last()));
}

/// A Question that is sent is told to the Supervisor in its own words, with its Attachments.
pub proof fn questions_are_told_as_asked(
    m: Model,
    actor: AuthenticatedActor,
    q: KeyedRequest,
    new: NewMessage,
    attachments: Seq<AttachmentId>,
)
    requires
        send_message(m, actor, q, new, attachments) is Ok,
        recall(m, q) == Ok::<Option<KeyedOutcome>, Refusal>(None),
        new.kind == MessageKind::Question,
        new.task is Some,
        accountable(m),
    ensures
        ({
            let next = send_message(m, actor, q, new, attachments)->Ok_0.0;
            let told = next.events.last();
            &&& next.events.len() > 0
            &&& told.origin == (EventOrigin::Question { message: new.id })
            &&& told.kind == SupervisorEventKind::BlockingQuestion
            &&& told.state == SupervisorEventDeliveryState::Pending
            &&& told.intent == new.delivery
            &&& told.task == new.task
            &&& told.message == Some(new.id)
            &&& told.summary == Some(Wording::Given { text: new.text })
            &&& event_attachments(next, told) == attachments
        }),
{
    let next = send_message(m, actor, q, new, attachments)->Ok_0.0;
    let owner = AttachmentOwner::Message { message: new.id };
    let origin = EventOrigin::Question { message: new.id };
    sent_messages_are_stored(m, actor, q, new, attachments);
    new_messages_are_unheard_of(m, new.id);
    bare_owners_name_nothing(m, owner);
    assert(attachments_of(next, owner) =~= attachments);
    let sent = posted(m, actor, new);
    let id = new.task->0;
    let i = first_where(sent.tasks, is_task(id))->0;
    let set = Model {
        tasks: sent.tasks.update(i, TaskRow { state: TaskState::Waiting, ..sent.tasks[i] }),
        ..sent
    };
    transitions_tell_of_graphs(
        set,
        id,
        TaskState::Working,
        TaskState::Waiting,
        TransitionReason::Plain,
        origin,
    );
    assert(!some_where(put_waiting(sent, id).events, is_event_from(origin)));
    assert(next.events == heed(sent, new).events);
}

// ---------------------------------------------------------------------------------------------
// Tasks and Results
// ---------------------------------------------------------------------------------------------

/// A Task that is created keeps its submission: in its own row, in the body of its root Message,
/// and at the end of the Attachments that its inputs resolve to.
pub proof fn submissions_are_stored(
    m: Model,
    q: KeyedRequest,
    new: NewTask,
    depends_on: Seq<DeclaredDependency>,
    attachments: Seq<AttachmentId>,
)
    requires
        create_task(m, q, new, depends_on, attachments) is Ok,
        recall(m, q) == Ok::<Option<KeyedOutcome>, Refusal>(None),
    ensures
        ({
            let next = create_task(m, q, new, depends_on, attachments)->Ok_0.0;
            let root = next.messages.last();
            &&& next.messages.len() == m.messages.len() + 1
            &&& root.id == new.message
            &&& root.kind == StoredMessageKind::Task
            &&& root.recipient == new.worker
            &&& root.body == new.submission
            &&& find_task(next, new.id) is Some
            &&& find_task(next, new.id)->0.submission == new.submission
            &&& forall|r: ResolvedTaskInputView| #[trigger]
                gives_inputs(next, new.id, r) ==> r.explicit_attachments@ == attachments_of(
                    m,
                    AttachmentOwner::Task { task: new.id },
                ) + attachments
        }),
{
    let next = create_task(m, q, new, depends_on, attachments)->Ok_0.0;
    let owner = AttachmentOwner::Task { task: new.id };
    let rows = placed(m, new, depends_on);
    let seen = look_at_edges(rows, new.id);
    let after = reevaluate(rows, new.id);
    first_says(m.tasks, is_task(new.id));
    assert(creation_refusal(m, new, depends_on, attachments) is None);
    first_says(depends_on, is_refused_dependency(m, new.canonical_root));
    assert(find_task(m, new.id) is None);
    let last = m.tasks.len() as int;
    assert forall|j: int| 0 <= j < last implies !is_task(new.id)(#[trigger] seen.tasks[j]) by {
        assert(!is_task(new.id)(m.tasks[j]));
    }
    first_found(seen.tasks, is_task(new.id), last);
    assert(next.tasks == after.tasks);
    assert forall|j: int| 0 <= j < last implies !is_task(new.id)(#[trigger] next.tasks[j]) by {
        assert(next.tasks[j] == m.tasks[j]);
        assert(!is_task(new.id)(m.tasks[j]));
    }
    first_found(next.tasks, is_task(new.id), last);
    attached_files_are_listed(after, owner, attachments);
    assert(attachments_of(after, owner) == attachments_of(m, owner));
    assert(next.attached == attach(after, owner, attachments).attached);
}

/// A Result that is recorded is kept as it was given, under its native turn, with the Attachments
/// that its manifest lists; its snapshot can be read.
pub proof fn results_are_stored(
    m: Model,
    actor: AuthenticatedActor,
    turn: Seq<char>,
    new: NewResult,
    attachments: Seq<AttachmentId>,
    verification: Seq<AttachmentId>,
)
    requires
        complete_task(m, actor, turn, new, attachments, verification).1 is Ok,
    ensures
        ({
            let (next, answer) = complete_task(m, actor, turn, new, attachments, verification);
            let t = find_task(m, new.task)->0;
            let kept = result_of_turn(next, t, new.turn);
            &&& answer == Ok::<u32, Refusal>(t.revision)
            &&& find_task(next, new.task) == Some(t)
            &&& kept is Some
            &&& kept->0.manifest == new.manifest
            &&& kept->0.summary == new.summary
            &&& kept->0.snapshot == new.snapshot.id
            &&& find_attachment(next, new.snapshot.id) == Some(new.snapshot)
            &&& attachments_of(
                next,
                AttachmentOwner::Result { task: new.task, revision: t.revision },
            ) == attachments_of(
                m,
                AttachmentOwner::Result { task: new.task, revision: t.revision },
            ) + attachments
        }),
{
    let next = complete_task(m, actor, turn, new, attachments, verification).0;
    let t = find_task(m, new.task)->0;
    first_says(m.tasks, is_task(new.task));
    let owner = AttachmentOwner::Result { task: new.task, revision: t.revision };
    let kept = Model { attachments: m.attachments.push(new.snapshot), ..m };
    indexed_files_are_found(m, new.snapshot);
    attached_files_are_listed(kept, owner, attachments);
    assert(attachments_of(kept, owner) == attachments_of(m, owner));
    assert(next.attached == attach(kept, owner, attachments).attached);
    let p = is_result_of_turn(t.id, t.revision, new.turn);
    let last = m.results.len() as int;
    assert forall|j: int| 0 <= j < last implies !p(#[trigger] next.results[j]) by {
        assert(!is_result(new.task, t.revision)(m.results[j]));
    }
    first_found(next.results, p, last);
}

/// A turn that ends in review brings its Result to the Supervisor: the Message is the manifest as
/// it was given, and the event says the summary and comes with the Attachments of the manifest.
pub proof fn results_are_told_as_submitted(
    m: Model,
    actor: AuthenticatedActor,
    task: TaskId,
    turn: TextKey,
    captured: Result<NewObservation, Refusal>,
    message: MessageId,
)
    requires
        record_turn_completed(m, actor, task, turn, true, captured, message).1 == Ok::<
            TaskState,
            Refusal,
        >(TaskState::Reviewing),
        !some_where(
            m.events,
            is_event_from(
                EventOrigin::Result { task, revision: find_task(m, task)->0.revision },
            ),
        ),
    ensures
        ({
            let next = record_turn_completed(m, actor, task, turn, true, captured, message).0;
            let t = find_task(m, task)->0;
            let result = result_of_turn(m, t, turn);
            let told = next.events.last();
            &&& result is Some
            &&& next.messages.len() == m.messages.len() + 1
            &&& next.messages.last().id == message
            &&& next.messages.last().kind == StoredMessageKind::Result
            &&& next.messages.last().body == result->0.manifest
            &&& Some(next.messages.last().recipient) == supervisor(m)
            &&& next.events.len() > 0
            &&& told.origin == (EventOrigin::Result { task, revision: t.revision })
            &&& told.kind == SupervisorEventKind::ResultReady
            &&& told.state == SupervisorEventDeliveryState::Pending
            &&& told.task == Some(task)
            &&& told.revision == Some(t.revision)
            &&& told.message == Some(message)
            &&& told.summary == Some(Wording::Given { text: result->0.summary })
            &&& event_attachments(next, told) == attachments_of(
                m,
                AttachmentOwner::Result { task, revision: t.revision },
            )
        }),
{
    let checkpoint = ObservationCheckpoint::Result;
    let seen = record_checkpoint(m, task, checkpoint, captured)->Ok_0;
    let t = find_task(m, task)->0;
    first_says(m.tasks, is_task(task));
    let origin = EventOrigin::Result { task, revision: t.revision };
    assert(record_checkpoint(m, task, checkpoint, captured) is Ok);
    assert(find_task(seen, task) == Some(t));
    first_says(m.results, is_result_of_turn(t.id, t.revision, turn));
    let drifted = out_of_scope(seen, task, checkpoint)->Ok_0;
    let sealed = Model {
        results: update_where(
            seen.results,
            is_result(t.id, t.revision),
            |x: ResultRow| terminal(x),
        ),
        ..seen
    };
    assert(find_task(sealed, task) == Some(t));
    transition_frame(sealed, t.id, t.state, TaskState::Reviewing, false);
    let moved = transition(sealed, t.id, t.state, TaskState::Reviewing, false)->Ok_0;
    let i = first_where(m.tasks, is_task(task))->0;
    let set = Model {
        tasks: sealed.tasks.update(i, TaskRow { state: TaskState::Reviewing, ..sealed.tasks[i] }),
        ..sealed
    };
    transitions_tell_of_graphs(
        set,
        t.id,
        t.state,
        TaskState::Reviewing,
        TransitionReason::Plain,
        origin,
    );
    assert(!some_where(moved.events, is_event_from(origin)));
    let stopped = hold_for_turn(moved, t, TaskState::Reviewing, drifted);
    assert(!some_where(stopped.events, is_event_from(origin))) by {
        assert forall|k: int| 0 <= k < stopped.events.len() implies !is_event_from(origin)(
            #[trigger] stopped.events[k],
        ) by {
            if k < moved.events.len() {
                assert(!is_event_from(origin)(moved.events[k]));
            }
        }
    }
    let condition = DependencyCondition::ResultReady;
    let offered = if drifted {
        stopped
    } else {
        satisfy_downstream(stopped, t.id, condition, t.revision)
    };
    assert(offered.events == stopped.events);
    assert(offered.messages == m.messages && offered.harnesses == m.harnesses);
    assert(offered.attached == m.attached);
    let next = report_result(offered, actor, t, message, result_of_turn(seen, t, turn)->0);
    assert(record_turn_completed(m, actor, task, turn, true, captured, message).0 == next);
}

// ---------------------------------------------------------------------------------------------
// Attachments and Sessions
// ---------------------------------------------------------------------------------------------

proof fn indexed_files_are_found(m: Model, row: AttachmentRow)
    requires
        !some_where(m.attachments, is_attachment(row.id)),
    ensures
        find_attachment(Model { attachments: m.attachments.push(row), ..m }, row.id) == Some(row),
{
    let pushed = m.attachments.push(row);
    let last = m.attachments.len() as int;
    assert forall|j: int| 0 <= j < last implies !is_attachment(row.id)(#[trigger] pushed[j]) by {
        assert(!is_attachment(row.id)(m.attachments[j]));
    }
    first_found(pushed, is_attachment(row.id), last);
}

/// An Attachment that is admitted is found under its identity, with its record as it was given.
pub proof fn admitted_files_are_found(
    m: Model,
    row: AttachmentRow,
    media_type: Seq<char>,
    original_name: Seq<char>,
)
    requires
        admit_attachment(m, row, media_type, original_name) is Ok,
    ensures
        find_attachment(admit_attachment(m, row, media_type, original_name)->Ok_0, row.id) == Some(
            row,
        ),
{
    indexed_files_are_found(m, row);
}

/// What a Worker Host found out is kept in its live Session.
pub proof fn findings_are_stored(
    m: Model,
    actor: AuthenticatedActor,
    executable: Seq<char>,
    version: Seq<char>,
    found: NativeFindings,
    evidence: HarnessCompatibilityEvidenceV1,
    size: usize,
    now: u64,
)
    requires
        host_compatibility(m, actor, executable, version, found, evidence, size, now) is Ok,
    ensures
        ({
            let next = host_compatibility(
                m,
                actor,
                executable,
                version,
                found,
                evidence,
                size,
                now,
            )->Ok_0;
            let i = first_where(next.sessions, is_live_session(actor.session));
            let s = next.sessions[i->0];
            &&& i is Some
            &&& s.id == actor.session
            &&& s.executable == Some(found.executable)
            &&& s.version == Some(found.version)
            &&& s.compatibility == Some(found.evidence)
            &&& s.native_session == found.native_session
            &&& s.native_thread == found.native_thread
        }),
{
    let p = is_live_session(actor.session);
    first_says(m.sessions, p);
    let i = first_where(m.sessions, p)->0;
    let next = host_compatibility(
        m,
        actor,
        executable,
        version,
        found,
        evidence,
        size,
        now,
    )->Ok_0;
    assert forall|j: int| 0 <= j < i implies !p(#[trigger] next.sessions[j]) by {
        assert(!p(m.sessions[j]));
    }
    assert(next.sessions[i] == compatible(m.sessions[i], found, now));
    first_found(next.sessions, p, i);
}

// ---------------------------------------------------------------------------------------------
// Events
// ---------------------------------------------------------------------------------------------

/// A delivery in doubt is told to the Supervisor with the reason that was given, which the attempt
/// keeps.
pub proof fn doubts_are_told_as_given(
    m: Model,
    actor: AuthenticatedActor,
    id: MessageId,
    diagnostic: Seq<char>,
    why: Wording,
)
    requires
        mark_delivery_unknown(m, actor, id, diagnostic, why) is Ok,
        !some_where(m.events, is_event_from(EventOrigin::Delivery { message: id })),
    ensures
        ({
            let (next, task) = mark_delivery_unknown(m, actor, id, diagnostic, why)->Ok_0;
            let k = last_where(m.attempts, is_attempt_of(id))->0;
            &&& next.attempts[k].doubt == Some(why)
            &&& exists|e: int|
                0 <= e < next.events.len() && (#[trigger] next.events[e]).origin == (
                EventOrigin::Delivery { message: id }) && next.events[e].summary == Some(why)
                    && next.events[e].task == Some(task)
        }),
{
    let (next, task) = mark_delivery_unknown(m, actor, id, diagnostic, why)->Ok_0;
    let origin = EventOrigin::Delivery { message: id };
    last_says(m.attempts, is_attempt_of(id));
    first_says(m.tasks, is_task(task));
    let marked = doubted(m, id, why);
    assert(marked.tasks == m.tasks && marked.events == m.events);
    let (from, to) = (TaskState::Dispatching, TaskState::DeliveryUnknown);
    transition_frame(marked, task, from, to, false);
    let moved = transition(marked, task, from, to, false)->Ok_0;
    let i = first_where(m.tasks, is_task(task))->0;
    let set = Model {
        tasks: marked.tasks.update(i, TaskRow { state: to, ..marked.tasks[i] }),
        ..marked
    };
    transitions_tell_of_graphs(set, task, from, to, TransitionReason::Plain, origin);
    assert(!some_where(moved.events, is_event_from(origin)));
    let e = moved.events.len() as int;
    assert(next.events[e].origin == origin);
}

/// The event that the Supervisor claims is one that waited, and says what it said.
pub proof fn claimed_events_say_what_they_said(m: Model, actor: AuthenticatedActor)
    ensures
        match claim_event(m, actor).1 {
            Some(e) => exists|i: int|
                0 <= i < m.events.len() && same_event(#[trigger] m.events[i], e)
                    && event_attachments(claim_event(m, actor).0, e) == event_attachments(
                    m,
                    m.events[i],
                ),
            None => claim_event(m, actor).0 == m,
        },
{
    first_says(m.events, is_pending());
    if let Some(e) = claim_event(m, actor).1 {
        let i = first_where(m.events, is_pending())->0;
        assert(same_event(m.events[i], e));
    }
}

/// What the Supervisor decided about an event in doubt is recorded with the note that was given.
pub proof fn decisions_are_recorded(
    m: Model,
    id: SupervisorEventId,
    resolution: SupervisorEventResolution,
    note: Seq<char>,
    key: TextKey,
)
    requires
        reconcile_event(m, id, resolution, note, key) is Ok,
    ensures
        ({
            let next = reconcile_event(m, id, resolution, note, key)->Ok_0.0;
            let record = next.reconciliations.last();
            &&& next.reconciliations.len() == m.reconciliations.len() + 1
            &&& record.event == id
            &&& record.resolution == resolution
            &&& record.note == key
        }),
{
}

/// The event of a Session that could not be chosen says what the refusal of the dispatch says.
pub proof fn blocked_sessions_are_told_as_refused(
    names: Seq<Seq<char>>,
    facts: DispatchFacts,
    requested: SessionReusePolicy,
    q: BindingQuestion,
)
    requires
        verdict_agrees(names, facts),
    ensures
        wording(names, blocked_words(facts@)) == Some(
            selection_refusal(requested, q, facts@.reason, facts@.reason_code).message,
        ),
{
}

} // verus!

//! Which Messages pass between the Supervisor and its Workers, what they do to the Task that they
//! are about, and what their acceptance does.
use vstd::prelude::*;

use crate::contract::{DeliveryIntent, HarnessTier, MessageKind, SupervisorEventKind, TaskState};
use crate::error::{ErrorCategory, Refusal};
use crate::identity::{AttachmentId, MessageId, TaskId};
use crate::ledger::create::{is_attachment, is_unknown_attachment, recall, KeyedRequest};
use crate::ledger::frames::{process_events_frame, transition_frame};
use crate::ledger::messages::{
    accept_delivery, is_question, is_reply_to, posted, send_message, NewMessage,
};
use crate::ledger::propagation::revoke;
use crate::ledger::schedule_laws::stands;
use crate::ledger::steps::transition;
use crate::ledger::{
    find_task, is_attempt_of, is_harness, is_message, is_task, record_transition_frame, Model,
};
use crate::rows::{
    AttemptRow, AttemptState, AuthenticatedActor, KeyedOutcome, StoredMessageKind, TaskRow,
    TransitionReason,
};
use crate::select::{
    first_found, first_missing, first_says, first_where, last_found, last_where, some_where,
};
use crate::text::byte_count;

verus! {

// ---------------------------------------------------------------------------------------------
// Rows
// ---------------------------------------------------------------------------------------------

/// The recipient stands at a place, every Attachment is stored, and the identity is unused.
pub open spec fn in_order(m: Model, new: NewMessage, attachments: Seq<AttachmentId>, h: int) -> bool {
    &&& 0 <= h < m.harnesses.len()
    &&& m.harnesses[h].key == new.to
    &&& forall|j: int| 0 <= j < h ==> (#[trigger] m.harnesses[j]).key != new.to
    &&& forall|k: int|
        0 <= k < attachments.len() ==> exists|a: int|
            0 <= a < m.attachments.len() && (#[trigger] m.attachments[a]).id
                == #[trigger] attachments[k]
    &&& forall|j: int| 0 <= j < m.messages.len() ==> (#[trigger] m.messages[j]).id != new.id
}

/// A request that was not answered before.
pub open spec fn is_new(m: Model, q: KeyedRequest) -> bool {
    recall(m, q) == Ok::<Option<KeyedOutcome>, Refusal>(None)
}

/// A refusal for want of authority.
pub open spec fn forbids<T>(r: Result<T, Refusal>) -> bool {
    r is Err && r->Err_0.category == ErrorCategory::Forbidden
}

proof fn order_says(m: Model, new: NewMessage, attachments: Seq<AttachmentId>, h: int)
    requires
        in_order(m, new, attachments, h),
    ensures
        first_where(attachments, is_unknown_attachment(m)) is None,
        first_where(m.harnesses, is_harness(new.to)) == Some(h),
        first_where(m.messages, is_message(new.id)) is None,
{
    assert forall|k: int| 0 <= k < attachments.len() implies !is_unknown_attachment(m)(
        #[trigger] attachments[k],
    ) by {
        let a = choose|a: int|
            0 <= a < m.attachments.len() && (#[trigger] m.attachments[a]).id == attachments[k];
        assert(is_attachment(attachments[k])(m.attachments[a]));
    }
    first_missing(attachments, is_unknown_attachment(m));
    first_found(m.harnesses, is_harness(new.to), h);
    first_missing(m.messages, is_message(new.id));
}

proof fn task_says(m: Model, id: TaskId, i: int)
    requires
        stands(m, id, i),
    ensures
        find_task(m, id) == Some(m.tasks[i]),
{
    first_found(m.tasks, is_task(id), i);
}

// ---------------------------------------------------------------------------------------------
// Routes
// ---------------------------------------------------------------------------------------------

/// A Correction goes as a follow-up from the Supervisor to the Worker of a Task under review, and
/// in no other way.
pub proof fn corrections_pass_under_review(
    m: Model,
    actor: AuthenticatedActor,
    q: KeyedRequest,
    new: NewMessage,
    attachments: Seq<AttachmentId>,
    h: int,
    i: int,
    id: TaskId,
)
    requires
        is_new(m, q),
        in_order(m, new, attachments, h),
        new.task == Some(id),
        stands(m, id, i),
        new.kind == MessageKind::Correction,
    ensures
        ({
            let t = m.tasks[i];
            let answer = send_message(m, actor, q, new, attachments);
            let passes = actor.tier == HarnessTier::Supervisor && new.to == t.worker
                && new.delivery == DeliveryIntent::FollowUp && t.state == TaskState::Reviewing;
            &&& passes ==> answer is Ok
            &&& !passes ==> forbids(answer)
        }),
{
    order_says(m, new, attachments, h);
    task_says(m, id, i);
}

/// A Reply goes as a follow-up from the Supervisor to the Worker of a Task that waits, where it
/// answers a Question of that Worker that was put to the Supervisor and has no Reply yet.
pub proof fn replies_pass_to_waiting_tasks(
    m: Model,
    actor: AuthenticatedActor,
    q: KeyedRequest,
    new: NewMessage,
    attachments: Seq<AttachmentId>,
    h: int,
    i: int,
    id: TaskId,
    question: MessageId,
)
    requires
        is_new(m, q),
        in_order(m, new, attachments, h),
        new.task == Some(id),
        stands(m, id, i),
        new.kind == MessageKind::Reply,
        new.reply_to == Some(question),
    ensures
        ({
            let t = m.tasks[i];
            let answer = send_message(m, actor, q, new, attachments);
            let routed = actor.tier == HarnessTier::Supervisor && new.to == t.worker
                && new.delivery == DeliveryIntent::FollowUp && t.state == TaskState::Waiting;
            let asked = exists|j: int|
                {
                    &&& 0 <= j < m.messages.len()
                    &&& (#[trigger] m.messages[j]).id == question
                    &&& m.messages[j].task == Some(id)
                    &&& m.messages[j].kind == StoredMessageKind::Question
                    &&& m.messages[j].sender == t.worker
                    &&& m.messages[j].recipient == actor.id
                };
            let answered = exists|j: int|
                0 <= j < m.messages.len() && (#[trigger] m.messages[j]).reply_to == Some(question);
            &&& routed && asked && !answered ==> answer is Ok
            &&& !routed ==> forbids(answer)
            &&& routed && !asked ==> answer is Err && answer->Err_0.category
                == ErrorCategory::InvalidInput
            &&& routed && asked && answered ==> answer is Err && answer->Err_0.category
                == ErrorCategory::Conflict
        }),
{
    order_says(m, new, attachments, h);
    task_says(m, id, i);
    let t = m.tasks[i];
    let p = is_question(question, t.id, t.worker, actor.id);
    assert(some_where(m.messages, p) == exists|j: int|
        {
            &&& 0 <= j < m.messages.len()
            &&& (#[trigger] m.messages[j]).id == question
            &&& m.messages[j].task == Some(id)
            &&& m.messages[j].kind == StoredMessageKind::Question
            &&& m.messages[j].sender == t.worker
            &&& m.messages[j].recipient == actor.id
        }) by {
        if some_where(m.messages, p) {
            let j = choose|j: int| 0 <= j < m.messages.len() && p(#[trigger] m.messages[j]);
            assert(m.messages[j].id == question);
        }
        if exists|j: int|
            {
                &&& 0 <= j < m.messages.len()
                &&& (#[trigger] m.messages[j]).id == question
                &&& m.messages[j].task == Some(id)
                &&& m.messages[j].kind == StoredMessageKind::Question
                &&& m.messages[j].sender == t.worker
                &&& m.messages[j].recipient == actor.id
            } {
            let j = choose|j: int|
                {
                    &&& 0 <= j < m.messages.len()
                    &&& (#[trigger] m.messages[j]).id == question
                    &&& m.messages[j].task == Some(id)
                    &&& m.messages[j].kind == StoredMessageKind::Question
                    &&& m.messages[j].sender == t.worker
                    &&& m.messages[j].recipient == actor.id
                };
            assert(p(m.messages[j]));
        }
    }
    let r = is_reply_to(question);
    assert(some_where(m.messages, r) == exists|j: int|
        0 <= j < m.messages.len() && (#[trigger] m.messages[j]).reply_to == Some(question)) by {
        if some_where(m.messages, r) {
            let j = choose|j: int| 0 <= j < m.messages.len() && r(#[trigger] m.messages[j]);
            assert(m.messages[j].reply_to == Some(question));
        }
        if exists|j: int|
            0 <= j < m.messages.len() && (#[trigger] m.messages[j]).reply_to == Some(question) {
            let j = choose|j: int|
                0 <= j < m.messages.len() && (#[trigger] m.messages[j]).reply_to == Some(question);
            assert(r(m.messages[j]));
        }
    }
}

/// A Question goes from the Worker of a Task that it works on to a Supervisor, and in no other way.
pub proof fn questions_pass_from_working_tasks(
    m: Model,
    actor: AuthenticatedActor,
    q: KeyedRequest,
    new: NewMessage,
    attachments: Seq<AttachmentId>,
    h: int,
    i: int,
    id: TaskId,
)
    requires
        is_new(m, q),
        in_order(m, new, attachments, h),
        new.task == Some(id),
        stands(m, id, i),
        new.kind == MessageKind::Question,
    ensures
        ({
            let t = m.tasks[i];
            let answer = send_message(m, actor, q, new, attachments);
            let passes = actor.tier == HarnessTier::Worker && actor.id == t.worker
                && m.harnesses[h].tier == HarnessTier::Supervisor && t.state == TaskState::Working;
            &&& passes ==> answer is Ok
            &&& !passes ==> forbids(answer)
        }),
{
    order_says(m, new, attachments, h);
    task_says(m, id, i);
}

/// A Notification about a Task goes from its Worker to a Supervisor at any time; from the
/// Supervisor to its Worker it goes as a follow-up at any time, and otherwise only while the Worker
/// works on the Task.
pub proof fn notifications_pass_between_a_worker_and_its_supervisor(
    m: Model,
    actor: AuthenticatedActor,
    q: KeyedRequest,
    new: NewMessage,
    attachments: Seq<AttachmentId>,
    h: int,
    i: int,
    id: TaskId,
)
    requires
        is_new(m, q),
        in_order(m, new, attachments, h),
        new.task == Some(id),
        stands(m, id, i),
        new.kind == MessageKind::Notification,
    ensures
        ({
            let t = m.tasks[i];
            let answer = send_message(m, actor, q, new, attachments);
            let reports = actor.tier == HarnessTier::Worker && actor.id == t.worker
                && m.harnesses[h].tier == HarnessTier::Supervisor;
            let directs = actor.tier == HarnessTier::Supervisor && new.to == t.worker && (
            new.delivery == DeliveryIntent::FollowUp || t.state == TaskState::Working);
            &&& reports || directs ==> answer is Ok
            &&& !reports && !directs ==> forbids(answer)
        }),
{
    order_says(m, new, attachments, h);
    task_says(m, id, i);
}

/// Only a Notification may be about no Task; it goes between the tiers and never to its sender.
pub proof fn taskless_messages_are_notifications_between_tiers(
    m: Model,
    actor: AuthenticatedActor,
    q: KeyedRequest,
    new: NewMessage,
    attachments: Seq<AttachmentId>,
    h: int,
)
    requires
        is_new(m, q),
        in_order(m, new, attachments, h),
        new.task is None,
    ensures
        ({
            let answer = send_message(m, actor, q, new, attachments);
            let crosses = actor.id != new.to && actor.tier != m.harnesses[h].tier;
            &&& new.kind == MessageKind::Notification && crosses ==> answer is Ok
            &&& new.kind == MessageKind::Notification && !crosses ==> forbids(answer)
            &&& new.kind != MessageKind::Notification ==> answer is Err
                && answer->Err_0.category == ErrorCategory::InvalidInput
        }),
{
    order_says(m, new, attachments, h);
}

/// A Message to nobody, with a file that is not stored, or about no known Task is refused as
/// something that does not exist.
pub proof fn messages_refer_to_what_exists(
    m: Model,
    actor: AuthenticatedActor,
    q: KeyedRequest,
    new: NewMessage,
    attachments: Seq<AttachmentId>,
)
    requires
        is_new(m, q),
        new.kind == MessageKind::Reply ==> new.reply_to is Some,
        (exists|k: int|
            0 <= k < attachments.len() && forall|a: int|
                0 <= a < m.attachments.len() ==> (#[trigger] m.attachments[a]).id
                    != #[trigger] attachments[k]) || (forall|h: int|
            0 <= h < m.harnesses.len() ==> (#[trigger] m.harnesses[h]).key != new.to),
    ensures
        send_message(m, actor, q, new, attachments) is Err,
        send_message(m, actor, q, new, attachments)->Err_0.category == ErrorCategory::NotFound,
{
    first_says(attachments, is_unknown_attachment(m));
    first_says(m.harnesses, is_harness(new.to));
    if exists|k: int|
        0 <= k < attachments.len() && forall|a: int|
            0 <= a < m.attachments.len() ==> (#[trigger] m.attachments[a]).id
                != #[trigger] attachments[k] {
        let k = choose|k: int|
            0 <= k < attachments.len() && forall|a: int|
                0 <= a < m.attachments.len() ==> (#[trigger] m.attachments[a]).id
                    != #[trigger] attachments[k];
        assert(is_unknown_attachment(m)(attachments[k])) by {
            assert forall|a: int| 0 <= a < m.attachments.len() implies !is_attachment(
                attachments[k],
            )(#[trigger] m.attachments[a]) by {}
        }
    } else {
        first_missing(m.harnesses, is_harness(new.to));
    }
}

// ---------------------------------------------------------------------------------------------
// What sending does
// ---------------------------------------------------------------------------------------------

/// A Message that passes waits for native acceptance. A Question puts its Task to waiting, and no
/// other Message changes the state of any Task before it is accepted.
pub proof fn sent_messages_wait_for_acceptance(
    m: Model,
    actor: AuthenticatedActor,
    q: KeyedRequest,
    new: NewMessage,
    attachments: Seq<AttachmentId>,
)
    requires
        is_new(m, q),
        send_message(m, actor, q, new, attachments) is Ok,
    ensures
        ({
            let next = send_message(m, actor, q, new, attachments)->Ok_0.0;
            let attempt = next.attempts.last();
            &&& next.attempts.len() == m.attempts.len() + 1
            &&& next.attempts.drop_last() == m.attempts
            &&& attempt.message == new.id
            &&& attempt.state == AttemptState::Pending
            &&& !attempt.wrote
            &&& new.kind != MessageKind::Question ==> next.tasks == m.tasks
            &&& new.kind == MessageKind::Question ==> next.tasks.len() == m.tasks.len() && (
            forall|i: int|
                0 <= i < m.tasks.len() ==> #[trigger] next.tasks[i] == (if Some(m.tasks[i].id)
                    == new.task && (forall|j: int|
                    0 <= j < i ==> (#[trigger] m.tasks[j]).id != m.tasks[i].id) {
                    TaskRow { state: TaskState::Waiting, ..m.tasks[i] }
                } else {
                    m.tasks[i]
                }))
        }),
{
    let next = send_message(m, actor, q, new, attachments)->Ok_0.0;
    let sent = posted(m, actor, new);
    assert(sent.attempts.drop_last() =~= m.attempts);
    if let Some(id) = new.task {
        first_says(m.tasks, is_task(id));
        let i = first_where(sent.tasks, is_task(id))->0;
        let set = Model {
            tasks: sent.tasks.update(i, TaskRow { state: TaskState::Waiting, ..sent.tasks[i] }),
            ..sent
        };
        record_transition_frame(
            set,
            id,
            TaskState::Working,
            TaskState::Waiting,
            TransitionReason::Plain,
        );
        process_events_frame(
            sent,
            SupervisorEventKind::BlockingQuestion,
            id,
            None,
            sent.events.len(),
        );
        process_events_frame(
            sent,
            SupervisorEventKind::ResultReady,
            id,
            None,
            sent.events.len(),
        );
        if new.kind == MessageKind::Question {
            assert(next.tasks == set.tasks);
            assert(find_task(m, id) is Some);
            assert(is_task(id)(m.tasks[i]));
            assert forall|k: int| 0 <= k < m.tasks.len() implies #[trigger] next.tasks[k] == (
            if Some(m.tasks[k].id) == new.task && (forall|j: int|
                0 <= j < k ==> (#[trigger] m.tasks[j]).id != m.tasks[k].id) {
                TaskRow { state: TaskState::Waiting, ..m.tasks[k] }
            } else {
                m.tasks[k]
            }) by {
                if k < i {
                    assert(!is_task(id)(m.tasks[k]));
                } else if k > i && m.tasks[k].id == id {
                    assert(m.tasks[i].id == m.tasks[k].id);
                } else if k == i {
                    assert forall|j: int| 0 <= j < k implies (#[trigger] m.tasks[j]).id
                        != m.tasks[k].id by {
                        assert(!is_task(id)(m.tasks[j]));
                    }
                }
            }
        }
    }
}

// ---------------------------------------------------------------------------------------------
// What acceptance does
// ---------------------------------------------------------------------------------------------

/// The Message stands at a place, and its latest attempt at another.
pub open spec fn is_sent(m: Model, id: MessageId, i: int, k: int) -> bool {
    &&& 0 <= i < m.messages.len()
    &&& m.messages[i].id == id
    &&& forall|j: int| 0 <= j < i ==> (#[trigger] m.messages[j]).id != id
    &&& 0 <= k < m.attempts.len()
    &&& m.attempts[k].message == id
    &&& forall|j: int| k < j < m.attempts.len() ==> (#[trigger] m.attempts[j]).message != id
}

proof fn sent_rows_are_found(m: Model, id: MessageId, i: int, k: int)
    requires
        is_sent(m, id, i, k),
    ensures
        first_where(m.messages, is_message(id)) == Some(i),
        last_where(m.attempts, is_attempt_of(id)) == Some(k),
{
    first_found(m.messages, is_message(id), i);
    last_found(m.attempts, is_attempt_of(id), k);
}

/// The state that a Message finds its Task in, and that acceptance takes it from.
pub open spec fn awaits(kind: StoredMessageKind) -> Option<TaskState> {
    match kind {
        StoredMessageKind::Task => Some(TaskState::Dispatching),
        StoredMessageKind::Reply => Some(TaskState::Waiting),
        StoredMessageKind::Correction => Some(TaskState::Reviewing),
        _ => None,
    }
}

/// A delivery is accepted by the Session that it was addressed to while it is open, and by no
/// other.
pub proof fn deliveries_are_accepted_by_their_session(
    m: Model,
    actor: AuthenticatedActor,
    id: MessageId,
    correlation: Seq<char>,
    key: u64,
    i: int,
    k: int,
)
    requires
        is_sent(m, id, i, k),
        1 <= byte_count(correlation) <= 512,
    ensures
        ({
            let answer = accept_delivery(m, actor, id, correlation, key);
            let x = m.messages[i];
            let a = m.attempts[k];
            let open = a.state == AttemptState::Pending || a.state == AttemptState::Dispatching;
            let mine = x.recipient == actor.id && a.session == Some(actor.session);
            &&& !mine ==> forbids(answer)
            &&& mine && !open ==> answer is Err && answer->Err_0.category
                == ErrorCategory::InvalidState
            &&& mine && open && awaits(x.kind) is None ==> answer is Ok
            &&& answer is Ok ==> {
                let next = answer->Ok_0;
                &&& mine && open
                &&& next.attempts.len() == m.attempts.len()
                &&& next.attempts[k] == (AttemptRow {
                    state: AttemptState::Accepted,
                    wrote: true,
                    correlation: Some(key),
                    ..a
                })
                &&& forall|j: int| 0 <= j < m.attempts.len() && j != k ==> #[trigger]
                    next.attempts[j] == m.attempts[j]
                &&& next.messages == m.messages
            }
        }),
{
    sent_rows_are_found(m, id, i, k);
    let x = m.messages[i];
    let seen = Model {
        attempts: m.attempts.update(
            k,
            AttemptRow {
                state: AttemptState::Accepted,
                wrote: true,
                correlation: Some(key),
                ..m.attempts[k]
            },
        ),
        ..m
    };
    if let (Some(task), Some(from)) = (x.task, awaits(x.kind)) {
        let bump = x.kind == StoredMessageKind::Correction;
        if transition(seen, task, from, TaskState::Working, bump) is Ok {
            transition_frame(seen, task, from, TaskState::Working, bump);
        }
    }
}

/// The root Message starts its Task, a Reply lets it go on, and a Correction opens it again under
/// the next Result revision; each finds it in the one state that it is meant for.
pub proof fn accepted_messages_set_their_task_to_work(
    m: Model,
    actor: AuthenticatedActor,
    id: MessageId,
    correlation: Seq<char>,
    key: u64,
    i: int,
    k: int,
    task: TaskId,
    t: int,
)
    requires
        is_sent(m, id, i, k),
        1 <= byte_count(correlation) <= 512,
        m.messages[i].recipient == actor.id,
        m.messages[i].task == Some(task),
        m.attempts[k].session == Some(actor.session),
        m.attempts[k].state == AttemptState::Pending || m.attempts[k].state
            == AttemptState::Dispatching,
        stands(m, task, t),
        m.tasks[t].revision < u32::MAX,
    ensures
        ({
            let answer = accept_delivery(m, actor, id, correlation, key);
            let kind = m.messages[i].kind;
            &&& match awaits(kind) {
                Some(from) => (answer is Ok) == (m.tasks[t].state == from),
                None => answer is Ok && answer->Ok_0.tasks == m.tasks,
            }
            &&& answer is Ok && awaits(kind) is Some ==> {
                let after = answer->Ok_0.tasks[t];
                &&& after.id == task
                &&& after.state == TaskState::Working
                &&& after.worker == m.tasks[t].worker
                &&& kind == StoredMessageKind::Correction ==> after.revision == m.tasks[t].revision
                    + 1
                &&& kind != StoredMessageKind::Correction ==> after.revision
                    == m.tasks[t].revision
            }
        }),
{
    sent_rows_are_found(m, id, i, k);
    task_says(m, task, t);
    let x = m.messages[i];
    let seen = Model {
        attempts: m.attempts.update(
            k,
            AttemptRow {
                state: AttemptState::Accepted,
                wrote: true,
                correlation: Some(key),
                ..m.attempts[k]
            },
        ),
        ..m
    };
    first_found(seen.tasks, is_task(task), t);
    if let Some(from) = awaits(x.kind) {
        let bump = x.kind == StoredMessageKind::Correction;
        if transition(seen, task, from, TaskState::Working, bump) is Ok {
            transition_frame(seen, task, from, TaskState::Working, bump);
            let moved = transition(seen, task, from, TaskState::Working, bump)->Ok_0;
            assert(revoke(moved, task).tasks.len() == moved.tasks.len());
            assert(revoke(moved, task).tasks[t].state == moved.tasks[t].state);
        }
    }
}

} // verus!

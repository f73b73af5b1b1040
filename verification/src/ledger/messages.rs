//! Messages between the Supervisor and its Workers: admission, native acceptance and Results.
use vstd::prelude::*;

use crate::contract::{DeliveryIntent, HarnessTier, MessageKind, SupervisorEventKind, TaskState};
use crate::error::{refusal, refuse, CoordinatorError, ErrorCategory, Refusal};
use crate::identity::{AttachmentId, HarnessSessionId, MessageId, TaskId};
use crate::ledger::create::{
    attach, attachment_missing, index_attachment, is_unknown_attachment, recall, remember,
    KeyedRequest,
};
use crate::ledger::dependencies::is_result;
use crate::ledger::evidence::concludes;
use crate::ledger::propagation::revoke;
use crate::ledger::steps::{
    add_attempt, must_be, plain, process_matching_events, refuse_state, transition,
};
use crate::ledger::{
    find_task, insert_event, is_attempt_of, is_harness, is_live_session, is_message, is_task,
    latest_session, record_transition, settles, Ledger, Model,
};
use crate::rows::{
    AttachmentOwner, AttachmentRow, AttemptRow, AttemptState, AuthenticatedActor, BindingRow,
    EventOrigin, HarnessKey, KeyedOutcome, MessageRow, ResultRow, StoredMessageKind, TaskRow,
    TextKey, TransitionReason, Wording,
};
use crate::select::{first_found, first_missing, first_where, last_where, some_where};
use crate::text::{byte_count, byte_len};

verus! {

// ---------------------------------------------------------------------------------------------
// Routes
// ---------------------------------------------------------------------------------------------

/// A Message as submitted, under a new identity.
#[derive(Debug, Clone, Copy, PartialEq, Eq, Structural)]
pub struct NewMessage {
    pub id: MessageId,
    pub task: Option<TaskId>,
    pub to: HarnessKey,
    pub kind: MessageKind,
    pub reply_to: Option<MessageId>,
    pub delivery: DeliveryIntent,
    /// The whole submission, and the text in it.
    pub body: TextKey,
    pub text: TextKey,
}

/// Which Messages about a Task may pass: a Worker asks while it works and notifies at any time; the
/// Supervisor answers what waits, corrects what is under review, and interrupts only live work.
pub open spec fn route_open(
    actor: AuthenticatedActor,
    new: NewMessage,
    worker: HarnessKey,
    state: TaskState,
    recipient: HarnessTier,
) -> bool {
    match (actor.tier, new.kind) {
        (HarnessTier::Worker, MessageKind::Question) => actor.id == worker && recipient
            == HarnessTier::Supervisor && state == TaskState::Working,
        (HarnessTier::Worker, MessageKind::Notification) => actor.id == worker && recipient
            == HarnessTier::Supervisor,
        (HarnessTier::Supervisor, MessageKind::Reply) => new.to == worker && state
            == TaskState::Waiting && new.delivery == DeliveryIntent::FollowUp,
        (HarnessTier::Supervisor, MessageKind::Correction) => new.to == worker && state
            == TaskState::Reviewing && new.delivery == DeliveryIntent::FollowUp,
        (HarnessTier::Supervisor, MessageKind::Notification) => new.to == worker && (new.delivery
            == DeliveryIntent::FollowUp || state == TaskState::Working),
        _ => false,
    }
}

pub open spec fn route_refusal() -> Refusal {
    refusal(
        ErrorCategory::Forbidden,
        "Message route, lifecycle state, or delivery intent is not permitted"@,
    )
}

/// Requires an open route for a Message about a Task.
pub fn validate_message_route(
    actor: AuthenticatedActor,
    new: NewMessage,
    worker: HarnessKey,
    state: TaskState,
    recipient: HarnessTier,
) -> (r: Result<(), CoordinatorError>)
    ensures
        match r {
            Ok(_) => route_open(actor, new, worker, state, recipient),
            Err(e) => !route_open(actor, new, worker, state, recipient) && e@ == route_refusal(),
        },
{
    let valid = match (actor.tier, new.kind) {
        (HarnessTier::Worker, MessageKind::Question) => actor.id == worker && recipient
            == HarnessTier::Supervisor && state == TaskState::Working,
        (HarnessTier::Worker, MessageKind::Notification) => actor.id == worker && recipient
            == HarnessTier::Supervisor,
        (HarnessTier::Supervisor, MessageKind::Reply) => new.to == worker && state
            == TaskState::Waiting && new.delivery == DeliveryIntent::FollowUp,
        (HarnessTier::Supervisor, MessageKind::Correction) => new.to == worker && state
            == TaskState::Reviewing && new.delivery == DeliveryIntent::FollowUp,
        (HarnessTier::Supervisor, MessageKind::Notification) => new.to == worker && (new.delivery
            == DeliveryIntent::FollowUp || state == TaskState::Working),
        _ => false,
    };
    if valid {
        Ok(())
    } else {
        Err(
            refuse(
                ErrorCategory::Forbidden,
                "Message route, lifecycle state, or delivery intent is not permitted",
            ),
        )
    }
}

// ---------------------------------------------------------------------------------------------
// Admission
// ---------------------------------------------------------------------------------------------

/// The Question of a Task that a Worker put to an actor.
pub open spec fn is_question(
    id: MessageId,
    task: TaskId,
    worker: HarnessKey,
    asked: HarnessKey,
) -> spec_fn(MessageRow) -> bool {
    |x: MessageRow|
        x.id == id && x.task == Some(task) && x.kind == StoredMessageKind::Question && x.sender
            == worker && x.recipient == asked
}

pub open spec fn is_reply_to(id: MessageId) -> spec_fn(MessageRow) -> bool {
    |x: MessageRow| x.reply_to == Some(id)
}

/// Why a Reply is refused: it answers an unanswered Question of its Task.
pub open spec fn reply_refusal(
    m: Model,
    actor: AuthenticatedActor,
    new: NewMessage,
    t: TaskRow,
) -> Option<Refusal> {
    let question = new.reply_to->0;
    if new.kind != MessageKind::Reply {
        None
    } else if !some_where(m.messages, is_question(question, t.id, t.worker, actor.id)) {
        Some(
            refusal(
                ErrorCategory::InvalidInput,
                "Reply does not reference an unanswered Question in this \
                Task"@,
            ),
        )
    } else if some_where(m.messages, is_reply_to(question)) {
        Some(refusal(ErrorCategory::Conflict, "Question already has a Reply"@))
    } else {
        None
    }
}

/// Why a Message that belongs to no Task is refused.
pub open spec fn taskless_refusal(
    actor: AuthenticatedActor,
    new: NewMessage,
    recipient: HarnessTier,
) -> Option<Refusal> {
    if new.kind != MessageKind::Notification {
        Some(refusal(ErrorCategory::InvalidInput, "only Notification may omit task_id"@))
    } else if actor.id == new.to {
        Some(refusal(ErrorCategory::Forbidden, "sender and recipient must differ"@))
    } else if actor.tier == recipient {
        Some(
            refusal(
                ErrorCategory::Forbidden,
                "taskless Notifications must follow the Supervisor-Worker topology"@,
            ),
        )
    } else {
        None
    }
}

/// The first reason against a Message, if there is any.
pub open spec fn message_refusal(
    m: Model,
    actor: AuthenticatedActor,
    new: NewMessage,
    attachments: Seq<AttachmentId>,
) -> Option<Refusal> {
    match first_where(attachments, is_unknown_attachment(m)) {
        Some(i) => Some(attachment_missing(attachments[i])),
        None => match first_where(m.harnesses, is_harness(new.to)) {
            None => Some(
                refusal(ErrorCategory::NotFound, "recipient Harness does not exist"@),
            ),
            Some(h) => {
                let tier = m.harnesses[h].tier;
                let routed = match new.task {
                    None => taskless_refusal(actor, new, tier),
                    Some(id) => match find_task(m, id) {
                        None => Some(refusal(ErrorCategory::NotFound, "Task does not exist"@)),
                        Some(t) => if !route_open(actor, new, t.worker, t.state, tier) {
                            Some(route_refusal())
                        } else {
                            reply_refusal(m, actor, new, t)
                        },
                    },
                };
                if routed is Some {
                    routed
                } else if first_where(m.messages, is_message(new.id)) is Some {
                    Some(refusal(ErrorCategory::StorageFailure, "identity is already in use"@))
                } else {
                    None
                }
            },
        },
    }
}

/// A binding in force to a live Session.
pub open spec fn is_live_binding(m: Model, id: TaskId) -> spec_fn(BindingRow) -> bool {
    |b: BindingRow|
        b.task == id && !b.superseded && first_where(m.sessions, is_live_session(b.session)) is Some
}

/// The Session that a Message is delivered to: a Worker gets Messages about a Task in the Session
/// bound to it, everything else goes to the newest live Session.
pub open spec fn addressee(m: Model, new: NewMessage, recipient: HarnessTier) -> Option<
    HarnessSessionId,
> {
    match (recipient, new.task) {
        (HarnessTier::Worker, Some(id)) => match first_where(m.bindings, is_live_binding(m, id)) {
            Some(b) => Some(m.bindings[b].session),
            None => None,
        },
        _ => latest_session(m, new.to),
    }
}

pub open spec fn stored_kind(kind: MessageKind) -> StoredMessageKind {
    match kind {
        MessageKind::Question => StoredMessageKind::Question,
        MessageKind::Reply => StoredMessageKind::Reply,
        MessageKind::Correction => StoredMessageKind::Correction,
        MessageKind::Notification => StoredMessageKind::Notification,
    }
}

/// A Task that waits for the answer to its Question.
pub open spec fn put_waiting(m: Model, id: TaskId) -> Model {
    let i = first_where(m.tasks, is_task(id))->0;
    record_transition(
        Model {
            tasks: m.tasks.update(i, TaskRow { state: TaskState::Waiting, ..m.tasks[i] }),
            ..m
        },
        id,
        TaskState::Working,
        TaskState::Waiting,
        TransitionReason::Plain,
    )
}

/// What a Message means for its Task and for the Supervisor's attention.
pub open spec fn heed(m: Model, new: NewMessage) -> Model {
    match (new.kind, new.task) {
        (MessageKind::Question, Some(id)) => insert_event(
            put_waiting(m, id),
            SupervisorEventKind::BlockingQuestion,
            Some(id),
            None,
            Some(new.id),
            EventOrigin::Question { message: new.id },
            new.delivery,
            Some(Wording::Given { text: new.text }),
        ),
        (MessageKind::Reply, Some(id)) => process_matching_events(
            m,
            SupervisorEventKind::BlockingQuestion,
            id,
            None,
        ),
        (MessageKind::Correction, Some(id)) => process_matching_events(
            m,
            SupervisorEventKind::ResultReady,
            id,
            None,
        ),
        _ => m,
    }
}

/// The Message recorded with its first delivery attempt.
pub open spec fn posted(m: Model, actor: AuthenticatedActor, new: NewMessage) -> Model {
    let recipient = m.harnesses[first_where(m.harnesses, is_harness(new.to))->0].tier;
    add_attempt(
        Model {
            messages: m.messages.push(
                MessageRow {
                    id: new.id,
                    task: new.task,
                    sender: actor.id,
                    recipient: new.to,
                    kind: stored_kind(new.kind),
                    reply_to: new.reply_to,
                    intent: new.delivery,
                    body: new.body,
                },
            ),
            ..m
        },
        new.id,
        addressee(m, new, recipient),
        AttemptState::Pending,
    )
}

/// A Reply in a Task that names no Question.
pub open spec fn names_no_question(new: NewMessage) -> bool {
    new.task is Some && new.kind == MessageKind::Reply && new.reply_to is None
}

pub open spec fn question_required() -> Refusal {
    refusal(ErrorCategory::InvalidInput, "a Reply names its Question"@)
}

/// Sending a Message: a keyed request that was answered before gets the same answer; otherwise the
/// Message is recorded for delivery with the Attachments that it names, and its Task and the
/// Supervisor's attention follow.
pub open spec fn send_message(
    m: Model,
    actor: AuthenticatedActor,
    q: KeyedRequest,
    new: NewMessage,
    attachments: Seq<AttachmentId>,
) -> Result<(Model, KeyedOutcome), Refusal> {
    if names_no_question(new) {
        Err(question_required())
    } else {
        match recall(m, q) {
            Err(e) => Err(e),
            Ok(Some(outcome)) => Ok((m, outcome)),
            Ok(None) => match message_refusal(m, actor, new, attachments) {
                Some(e) => Err(e),
                None => {
                    let outcome = KeyedOutcome::MessageCreated { message: new.id };
                    let sent = attach(
                        heed(posted(m, actor, new), new),
                        AttachmentOwner::Message { message: new.id },
                        attachments,
                    );
                    Ok((remember(sent, q, outcome), outcome))
                },
            },
        }
    }
}

pub fn store_kind(kind: MessageKind) -> (r: StoredMessageKind)
    ensures
        r == stored_kind(kind),
{
    match kind {
        MessageKind::Question => StoredMessageKind::Question,
        MessageKind::Reply => StoredMessageKind::Reply,
        MessageKind::Correction => StoredMessageKind::Correction,
        MessageKind::Notification => StoredMessageKind::Notification,
    }
}

impl Ledger {
    fn has_question(
        &self,
        id: MessageId,
        task: TaskId,
        worker: HarnessKey,
        asked: HarnessKey,
    ) -> (r: bool)
        ensures
            r == some_where(self@.messages, is_question(id, task, worker, asked)),
    {
        let mut i: usize = 0;
        while i < self.messages.len()
            invariant
                i <= self.messages.len(),
                forall|j: int|
                    0 <= j < i ==> !is_question(id, task, worker, asked)(
                        #[trigger] self.messages@[j],
                    ),
            decreases self.messages.len() - i,
        {
            let x = self.messages[i];
            let of_task = match x.task {
                Some(t) => t == task,
                None => false,
            };
            if x.id == id && of_task && x.kind == StoredMessageKind::Question && x.sender == worker
                && x.recipient == asked {
                assert(is_question(id, task, worker, asked)(self@.messages[i as int]));
                return true;
            }
            i += 1;
        }
        false
    }

    fn has_reply(&self, id: MessageId) -> (r: bool)
        ensures
            r == some_where(self@.messages, is_reply_to(id)),
    {
        let mut i: usize = 0;
        while i < self.messages.len()
            invariant
                i <= self.messages.len(),
                forall|j: int| 0 <= j < i ==> !is_reply_to(id)(#[trigger] self.messages@[j]),
            decreases self.messages.len() - i,
        {
            let answers = match self.messages[i].reply_to {
                Some(other) => other == id,
                None => false,
            };
            if answers {
                assert(is_reply_to(id)(self@.messages[i as int]));
                return true;
            }
            i += 1;
        }
        false
    }

    fn live_binding(&self, id: TaskId) -> (r: Option<HarnessSessionId>)
        ensures
            r == (match first_where(self@.bindings, is_live_binding(self@, id)) {
                Some(i) => Some(self@.bindings[i].session),
                None => None,
            }),
    {
        let mut i: usize = 0;
        while i < self.bindings.len()
            invariant
                i <= self.bindings.len(),
                forall|j: int|
                    0 <= j < i ==> !is_live_binding(self@, id)(#[trigger] self.bindings@[j]),
            decreases self.bindings.len() - i,
        {
            let b = self.bindings[i];
            if b.task == id && !b.superseded && self.live_session_position(b.session).is_some() {
                proof {
                    first_found(self@.bindings, is_live_binding(self@, id), i as int);
                }
                return Some(b.session);
            }
            i += 1;
        }
        proof {
            first_missing(self@.bindings, is_live_binding(self@, id));
        }
        None
    }

    fn addressee(&self, new: NewMessage, recipient: HarnessTier) -> (r: Option<HarnessSessionId>)
        ensures
            r == addressee(self@, new, recipient),
    {
        match (recipient, new.task) {
            (HarnessTier::Worker, Some(id)) => self.live_binding(id),
            _ => self.latest_session(new.to),
        }
    }

    fn require_routed(
        &self,
        actor: AuthenticatedActor,
        new: NewMessage,
        attachments: &Vec<AttachmentId>,
    ) -> (r: Result<HarnessTier, CoordinatorError>)
        requires
            new.task is Some && new.kind == MessageKind::Reply ==> new.reply_to is Some,
        ensures
            match message_refusal(self@, actor, new, attachments@) {
                None => r is Ok && first_where(self@.harnesses, is_harness(new.to)) is Some
                    && r->Ok_0 == self@.harnesses[first_where(
                    self@.harnesses,
                    is_harness(new.to),
                )->0].tier,
                Some(e) => r is Err && r->Err_0@ == e,
            },
    {
        match self.require_attachments(attachments) {
            Err(e) => {
                return Err(e);
            },
            Ok(_) => {},
        }
        let tier = match self.harness(new.to) {
            None => {
                return Err(refuse(ErrorCategory::NotFound, "recipient Harness does not exist"));
            },
            Some(h) => h.tier,
        };
        match new.task {
            Some(id) => {
                let t = match self.task(id) {
                    None => {
                        return Err(refuse(ErrorCategory::NotFound, "Task does not exist"));
                    },
                    Some(t) => t,
                };
                match validate_message_route(actor, new, t.worker, t.state, tier) {
                    Err(e) => {
                        return Err(e);
                    },
                    Ok(_) => {},
                }
                if new.kind == MessageKind::Reply {
                    let question = match new.reply_to {
                        Some(question) => question,
                        None => MessageId(0),
                    };
                    if !self.has_question(question, t.id, t.worker, actor.id) {
                        return Err(
                            refuse(
                                ErrorCategory::InvalidInput,
                                "Reply does not reference an unanswered Question in this \
                                Task",
                            ),
                        );
                    }
                    if self.has_reply(question) {
                        return Err(refuse(ErrorCategory::Conflict, "Question already has a Reply"));
                    }
                }
            },
            None => {
                if new.kind != MessageKind::Notification {
                    return Err(
                        refuse(ErrorCategory::InvalidInput, "only Notification may omit task_id"),
                    );
                }
                if actor.id == new.to {
                    return Err(
                        refuse(ErrorCategory::Forbidden, "sender and recipient must differ"),
                    );
                }
                if actor.tier == tier {
                    return Err(
                        refuse(
                            ErrorCategory::Forbidden,
                            "taskless Notifications must follow the Supervisor-Worker topology",
                        ),
                    );
                }
            },
        }
        if self.message_position(new.id).is_some() {
            return Err(refuse(ErrorCategory::StorageFailure, "identity is already in use"));
        }
        Ok(tier)
    }

    /// Sends a Message.
    pub fn send_message(
        &mut self,
        actor: AuthenticatedActor,
        q: KeyedRequest,
        new: NewMessage,
        attachments: &Vec<AttachmentId>,
    ) -> (r: Result<KeyedOutcome, CoordinatorError>)
        ensures
            settles(
                r,
                old(self)@,
                final(self)@,
                send_message(old(self)@, actor, q, new, attachments@),
            ),
    {
        if new.task.is_some() && new.kind == MessageKind::Reply && new.reply_to.is_none() {
            return Err(refuse(ErrorCategory::InvalidInput, "a Reply names its Question"));
        }
        match self.find_idempotent_outcome(q) {
            Err(e) => {
                return Err(e);
            },
            Ok(Some(outcome)) => {
                return Ok(outcome);
            },
            Ok(None) => {},
        }
        let tier = match self.require_routed(actor, new, attachments) {
            Err(e) => {
                return Err(e);
            },
            Ok(tier) => tier,
        };
        let session = self.addressee(new, tier);
        self.messages.push(
            MessageRow {
                id: new.id,
                task: new.task,
                sender: actor.id,
                recipient: new.to,
                kind: store_kind(new.kind),
                reply_to: new.reply_to,
                intent: new.delivery,
                body: new.body,
            },
        );
        self.add_attempt(new.id, session, AttemptState::Pending);
        assert(self@ == posted(old(self)@, actor, new));
        match (new.kind, new.task) {
            (MessageKind::Question, Some(id)) => {
                if let Some(i) = self.task_position(id) {
                    let t = self.tasks[i];
                    self.tasks.set(i, TaskRow { state: TaskState::Waiting, ..t });
                }
                self.record_transition(
                    id,
                    TaskState::Working,
                    TaskState::Waiting,
                    TransitionReason::Plain,
                );
                self.insert_event(
                    SupervisorEventKind::BlockingQuestion,
                    Some(id),
                    None,
                    Some(new.id),
                    EventOrigin::Question { message: new.id },
                    new.delivery,
                    Some(Wording::Given { text: new.text }),
                );
            },
            (MessageKind::Reply, Some(id)) => {
                self.process_matching_events(SupervisorEventKind::BlockingQuestion, id, None);
            },
            (MessageKind::Correction, Some(id)) => {
                self.process_matching_events(SupervisorEventKind::ResultReady, id, None);
            },
            _ => {},
        }
        self.attach(AttachmentOwner::Message { message: new.id }, attachments);
        let outcome = KeyedOutcome::MessageCreated { message: new.id };
        self.store_idempotent_outcome(q, outcome);
        Ok(outcome)
    }
}

// ---------------------------------------------------------------------------------------------
// Native acceptance
// ---------------------------------------------------------------------------------------------

/// A native correlation or turn identity that is kept: 1 to 512 bytes.
pub open spec fn storable(text: Seq<char>) -> bool {
    1 <= byte_count(text) <= 512
}

/// An attempt whose Message still awaits native acceptance.
pub open spec fn awaits_acceptance(a: AttemptRow) -> bool {
    a.state == AttemptState::Pending || a.state == AttemptState::Dispatching
}

/// Why the acceptance of a Message is refused to an actor.
pub open spec fn acceptance_refusal(
    m: Model,
    actor: AuthenticatedActor,
    id: MessageId,
    correlation: Seq<char>,
) -> Option<Refusal> {
    if !storable(correlation) {
        Some(
            refusal(
                ErrorCategory::InvalidInput,
                "native correlation must contain 1 to 512 bytes"@,
            ),
        )
    } else {
        match first_where(m.messages, is_message(id)) {
            None => Some(refusal(ErrorCategory::NotFound, "Message does not exist"@)),
            Some(i) => {
                let last = last_where(m.attempts, is_attempt_of(id));
                if m.messages[i].recipient != actor.id {
                    Some(
                        refusal(
                            ErrorCategory::Forbidden,
                            "only the destination Host may accept delivery"@,
                        ),
                    )
                } else if last is None || m.attempts[last->0].session != Some(actor.session) {
                    Some(
                        refusal(
                            ErrorCategory::Forbidden,
                            "native delivery was not addressed to this exact Harness Session"@,
                        ),
                    )
                } else if !awaits_acceptance(m.attempts[last->0]) {
                    Some(
                        refusal(
                            ErrorCategory::InvalidState,
                            "Message is not awaiting native acceptance"@,
                        ),
                    )
                } else {
                    None
                }
            },
        }
    }
}

/// What an accepted Message does to its Task: the root Message starts it, a Reply resumes it, and
/// a Correction reopens it under a new Result revision and takes back what it had offered.
pub open spec fn resume(m: Model, message: MessageRow) -> Result<Model, Refusal> {
    match (message.kind, message.task) {
        (StoredMessageKind::Task, Some(id)) => transition(
            m,
            id,
            TaskState::Dispatching,
            TaskState::Working,
            false,
        ),
        (StoredMessageKind::Reply, Some(id)) => transition(
            m,
            id,
            TaskState::Waiting,
            TaskState::Working,
            false,
        ),
        (StoredMessageKind::Correction, Some(id)) => match transition(
            m,
            id,
            TaskState::Reviewing,
            TaskState::Working,
            true,
        ) {
            Ok(next) => Ok(revoke(next, id)),
            Err(e) => Err(e),
        },
        _ => Ok(m),
    }
}

/// Native acceptance of the latest attempt of a Message, under the number of the correlation.
pub open spec fn accept_delivery(
    m: Model,
    actor: AuthenticatedActor,
    id: MessageId,
    correlation: Seq<char>,
    key: TextKey,
) -> Result<Model, Refusal> {
    match acceptance_refusal(m, actor, id, correlation) {
        Some(e) => Err(e),
        None => {
            let k = last_where(m.attempts, is_attempt_of(id))->0;
            let accepted = AttemptRow {
                state: AttemptState::Accepted,
                wrote: true,
                correlation: Some(key),
                ..m.attempts[k]
            };
            resume(
                Model { attempts: m.attempts.update(k, accepted), ..m },
                m.messages[first_where(m.messages, is_message(id))->0],
            )
        },
    }
}

impl Ledger {
    fn resume(&mut self, message: MessageRow) -> (r: Result<(), CoordinatorError>)
        ensures
            settles(r, old(self)@, final(self)@, plain(resume(old(self)@, message))),
    {
        match (message.kind, message.task) {
            (StoredMessageKind::Task, Some(id)) => self.transition_exact(
                id,
                TaskState::Dispatching,
                TaskState::Working,
                false,
            ),
            (StoredMessageKind::Reply, Some(id)) => self.transition_exact(
                id,
                TaskState::Waiting,
                TaskState::Working,
                false,
            ),
            (StoredMessageKind::Correction, Some(id)) => match self.transition_exact(
                id,
                TaskState::Reviewing,
                TaskState::Working,
                true,
            ) {
                Err(e) => Err(e),
                Ok(_) => {
                    self.revoke_unbound_result_dependencies(id);
                    Ok(())
                },
            },
            _ => Ok(()),
        }
    }

    /// Records that the destination's native session accepted a Message.
    pub fn accept_delivery(
        &mut self,
        actor: AuthenticatedActor,
        id: MessageId,
        correlation: &str,
        key: TextKey,
    ) -> (r: Result<(), CoordinatorError>)
        ensures
            settles(
                r,
                old(self)@,
                final(self)@,
                plain(accept_delivery(old(self)@, actor, id, correlation@, key)),
            ),
    {
        let bytes = byte_len(correlation);
        if bytes == 0 || bytes > 512 {
            return Err(
                refuse(
                    ErrorCategory::InvalidInput,
                    "native correlation must contain 1 to 512 bytes",
                ),
            );
        }
        let i = match self.message_position(id) {
            None => {
                return Err(refuse(ErrorCategory::NotFound, "Message does not exist"));
            },
            Some(i) => i,
        };
        let message = self.messages[i];
        if message.recipient != actor.id {
            return Err(
                refuse(ErrorCategory::Forbidden, "only the destination Host may accept delivery"),
            );
        }
        let k = match self.latest_attempt(id) {
            None => {
                return Err(
                    refuse(
                        ErrorCategory::Forbidden,
                        "native delivery was not addressed to this exact Harness Session",
                    ),
                );
            },
            Some(k) => k,
        };
        let addressed = match self.attempts[k].session {
            Some(session) => session == actor.session,
            None => false,
        };
        if !addressed {
            return Err(
                refuse(
                    ErrorCategory::Forbidden,
                    "native delivery was not addressed to this exact Harness Session",
                ),
            );
        }
        let attempt = self.attempts[k];
        if attempt.state != AttemptState::Pending && attempt.state != AttemptState::Dispatching {
            return Err(
                refuse(ErrorCategory::InvalidState, "Message is not awaiting native acceptance"),
            );
        }
        self.attempts.set(
            k,
            AttemptRow {
                state: AttemptState::Accepted,
                wrote: true,
                correlation: Some(key),
                ..attempt
            },
        );
        match self.resume(message) {
            Ok(_) => Ok(()),
            Err(e) => {
                self.attempts.set(k, attempt);
                assert(self@.attempts =~= old(self)@.attempts);
                Err(e)
            },
        }
    }
}

// ---------------------------------------------------------------------------------------------
// Results
// ---------------------------------------------------------------------------------------------

/// Why a Result is refused before its dependency snapshot is made: `evidence` are the Attachments
/// that it names.
pub open spec fn completion_refusal(
    m: Model,
    actor: AuthenticatedActor,
    task: TaskId,
    turn: Seq<char>,
    evidence: Seq<AttachmentId>,
) -> Option<Refusal> {
    if !storable(turn) {
        Some(
            refusal(ErrorCategory::InvalidInput, "native turn ID must contain 1 to 512 bytes"@),
        )
    } else {
        match find_task(m, task) {
            None => Some(refusal(ErrorCategory::NotFound, "Task does not exist"@)),
            Some(t) => if t.worker != actor.id {
                Some(
                    refusal(
                        ErrorCategory::Forbidden,
                        "only the assigned Worker may complete this \
                        Task"@,
                    ),
                )
            } else if t.state != TaskState::Working {
                Some(must_be(TaskState::Working))
            } else if some_where(evidence, is_unknown_attachment(m)) {
                Some(
                    refusal(ErrorCategory::NotFound, "Result references an unknown Attachment"@),
                )
            } else {
                None
            },
        }
    }
}

/// A Result as submitted: the numbers of its native turn, its manifest and its summary, and the
/// stored Attachment that keeps what downstream Tasks may read of it.
#[derive(Debug, Clone, Copy, PartialEq, Eq, Structural)]
pub struct NewResult {
    pub task: TaskId,
    pub turn: TextKey,
    pub manifest: TextKey,
    pub summary: TextKey,
    pub snapshot: AttachmentRow,
}

/// The tables with a Result of a revision and the Attachments that its manifest lists.
pub open spec fn completed(
    m: Model,
    new: NewResult,
    revision: u32,
    attachments: Seq<AttachmentId>,
) -> Model {
    attach(
        Model {
            results: m.results.push(
                ResultRow {
                    task: new.task,
                    revision,
                    turn: new.turn,
                    terminal: false,
                    snapshot: new.snapshot.id,
                    manifest: new.manifest,
                    summary: new.summary,
                },
            ),
            ..m
        },
        AttachmentOwner::Result { task: new.task, revision },
        attachments,
    )
}

/// Admission of a Result for the current revision of a Task; one revision has one Result. It names
/// the Attachments that it lists and the evidence of its verifications. Its snapshot is indexed
/// first, and stays so where the revision has a Result already.
pub open spec fn complete_task(
    m: Model,
    actor: AuthenticatedActor,
    turn: Seq<char>,
    new: NewResult,
    attachments: Seq<AttachmentId>,
    verification: Seq<AttachmentId>,
) -> (Model, Result<u32, Refusal>) {
    let task = new.task;
    let evidence = attachments + verification;
    if completion_refusal(m, actor, task, turn, evidence) is Some {
        (m, Err(completion_refusal(m, actor, task, turn, evidence)->0))
    } else {
        match index_attachment(m, new.snapshot) {
            Err(e) => (m, Err(e)),
            Ok(kept) => {
                let revision = find_task(m, task)->0.revision;
                if some_where(m.results, is_result(task, revision)) {
                    (
                        kept,
                        Err(
                            refusal(
                                ErrorCategory::Conflict,
                                "a Result is already recorded for this \
                                Task revision"@,
                            ),
                        ),
                    )
                } else {
                    (completed(kept, new, revision, attachments), Ok(revision))
                }
            },
        }
    }
}

impl Ledger {
    /// Requires that a Result may be recorded, before its dependency snapshot is admitted.
    pub fn require_completable(
        &self,
        actor: AuthenticatedActor,
        task: TaskId,
        turn: &str,
        attachments: &Vec<AttachmentId>,
        verification: &Vec<AttachmentId>,
    ) -> (r: Result<(), CoordinatorError>)
        ensures
            match completion_refusal(
                self@,
                actor,
                task,
                turn@,
                attachments@ + verification@,
            ) {
                None => r is Ok,
                Some(e) => r is Err && r->Err_0@ == e,
            },
    {
        let bytes = byte_len(turn);
        if bytes == 0 || bytes > 512 {
            return Err(
                refuse(ErrorCategory::InvalidInput, "native turn ID must contain 1 to 512 bytes"),
            );
        }
        let t = match self.task(task) {
            None => {
                return Err(refuse(ErrorCategory::NotFound, "Task does not exist"));
            },
            Some(t) => t,
        };
        if t.worker != actor.id {
            return Err(
                refuse(ErrorCategory::Forbidden, "only the assigned Worker may complete this \
                Task"),
            );
        }
        if t.state != TaskState::Working {
            return Err(refuse_state(TaskState::Working));
        }
        let ghost evidence = attachments@ + verification@;
        let mut i: usize = 0;
        while i < attachments.len()
            invariant
                i <= attachments.len(),
                storable(turn@),
                find_task(self@, task) == Some(t),
                t.worker == actor.id,
                t.state == TaskState::Working,
                evidence == attachments@ + verification@,
                forall|j: int| 0 <= j < i ==> !is_unknown_attachment(self@)(#[trigger] evidence[j]),
            decreases attachments.len() - i,
        {
            if !self.has_attachment(attachments[i]) {
                assert(is_unknown_attachment(self@)(evidence[i as int]));
                return Err(
                    refuse(ErrorCategory::NotFound, "Result references an unknown Attachment"),
                );
            }
            i += 1;
        }
        let mut k: usize = 0;
        while k < verification.len()
            invariant
                k <= verification.len(),
                storable(turn@),
                find_task(self@, task) == Some(t),
                t.worker == actor.id,
                t.state == TaskState::Working,
                evidence == attachments@ + verification@,
                forall|j: int|
                    0 <= j < attachments.len() + k ==> !is_unknown_attachment(self@)(
                        #[trigger] evidence[j],
                    ),
            decreases verification.len() - k,
        {
            if !self.has_attachment(verification[k]) {
                assert(evidence[attachments.len() + k] == verification@[k as int]);
                assert(is_unknown_attachment(self@)(evidence[attachments.len() + k]));
                return Err(
                    refuse(ErrorCategory::NotFound, "Result references an unknown Attachment"),
                );
            }
            assert(evidence[attachments.len() + k] == verification@[k as int]);
            k += 1;
        }
        Ok(())
    }

    /// Records the Result of a Task for its current revision.
    pub fn complete_task(
        &mut self,
        actor: AuthenticatedActor,
        turn: &str,
        new: NewResult,
        attachments: &Vec<AttachmentId>,
        verification: &Vec<AttachmentId>,
    ) -> (r: Result<u32, CoordinatorError>)
        ensures
            concludes(
                r,
                final(self)@,
                complete_task(old(self)@, actor, turn@, new, attachments@, verification@),
            ),
    {
        let task = new.task;
        match self.require_completable(actor, task, turn, attachments, verification) {
            Err(e) => {
                return Err(e);
            },
            Ok(_) => {},
        }
        let revision: u32 = match self.task(task) {
            Some(t) => t.revision,
            None => 0,
        };
        match self.index_attachment(new.snapshot) {
            Err(e) => {
                return Err(e);
            },
            Ok(_) => {},
        }
        let ghost kept = self@;
        let mut i: usize = 0;
        while i < self.results.len()
            invariant
                i <= self.results.len(),
                self@ == kept,
                index_attachment(old(self)@, new.snapshot) == Ok::<Model, Refusal>(kept),
                completion_refusal(old(self)@, actor, task, turn@, attachments@ + verification@)
                    is None,
                task == new.task,
                find_task(old(self)@, task) is Some,
                revision == find_task(old(self)@, task)->0.revision,
                forall|j: int|
                    0 <= j < i ==> !is_result(task, revision)(#[trigger] self.results@[j]),
            decreases self.results.len() - i,
        {
            if self.results[i].task == task && self.results[i].revision == revision {
                assert(is_result(task, revision)(self@.results[i as int]));
                return Err(
                    refuse(
                        ErrorCategory::Conflict,
                        "a Result is already recorded for this \
                        Task revision",
                    ),
                );
            }
            i += 1;
        }
        self.results.push(
            ResultRow {
                task,
                revision,
                turn: new.turn,
                terminal: false,
                snapshot: new.snapshot.id,
                manifest: new.manifest,
                summary: new.summary,
            },
        );
        self.attach(AttachmentOwner::Result { task, revision }, attachments);
        Ok(revision)
    }
}

} // verus!

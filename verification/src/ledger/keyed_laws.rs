//! What a request key promises.
use vstd::prelude::*;

use crate::error::{ErrorCategory, Refusal};
use crate::identity::AttachmentId;
use crate::ledger::create::{
    announced, attach, create_task, is_keyed, placed, recall, remember, DeclaredDependency,
    KeyedRequest, NewTask,
};
use crate::ledger::dependencies::reevaluate;
use crate::ledger::frames::process_events_frame;
use crate::ledger::messages::{heed, names_no_question, posted, send_message, NewMessage};
use crate::ledger::{is_task, record_transition_frame, Model};
use crate::rows::{
    AttachmentOwner, AuthenticatedActor, KeyedOutcome, TaskRow, TextKey, TransitionReason,
};
use crate::select::{first_found, first_says, first_where};

verus! {

/// Refused as a conflict with what was done before.
pub open spec fn refuses_as_conflict(r: Result<(Model, KeyedOutcome), Refusal>) -> bool {
    r is Err && r->Err_0.category == ErrorCategory::Conflict
}

proof fn remembered_outcomes_are_recalled(m: Model, q: KeyedRequest, outcome: KeyedOutcome)
    requires
        q.request_key is Some,
        recall(m, q) == Ok::<Option<KeyedOutcome>, Refusal>(None),
    ensures
        recall(remember(m, q, outcome), q) == Ok::<Option<KeyedOutcome>, Refusal>(Some(outcome)),
{
    let key = q.request_key->0;
    let p = is_keyed(q.actor, q.creates_task, key);
    first_says(m.keyed, p);
    let after = remember(m, q, outcome);
    let last = m.keyed.len() as int;
    assert forall|j: int| 0 <= j < last implies !p(#[trigger] after.keyed[j]) by {
        assert(!p(m.keyed[j]));
    }
    first_found(after.keyed, p, last);
}

/// A keyed creation that succeeded is answered the same way when it is asked for again, whatever
/// the new identities, and changes nothing; the same key with another payload is a conflict.
pub proof fn keyed_creations_happen_once(
    m: Model,
    q: KeyedRequest,
    new: NewTask,
    depends_on: Seq<DeclaredDependency>,
    attachments: Seq<AttachmentId>,
    again: NewTask,
    again_depends_on: Seq<DeclaredDependency>,
    again_attachments: Seq<AttachmentId>,
    other: TextKey,
)
    requires
        create_task(m, q, new, depends_on, attachments) is Ok,
        q.request_key is Some,
        other != q.payload,
    ensures
        ({
            let (after, outcome) = create_task(m, q, new, depends_on, attachments)->Ok_0;
            &&& create_task(after, q, again, again_depends_on, again_attachments) == Ok::<
                (Model, KeyedOutcome),
                Refusal,
            >((after, outcome))
            &&& refuses_as_conflict(
                create_task(
                    after,
                    KeyedRequest { payload: other, ..q },
                    again,
                    again_depends_on,
                    again_attachments,
                ),
            )
        }),
{
    let (after, outcome) = create_task(m, q, new, depends_on, attachments)->Ok_0;
    if recall(m, q) == Ok::<Option<KeyedOutcome>, Refusal>(None) {
        let rows = placed(m, new, depends_on);
        let owner = AttachmentOwner::Task { task: new.id };
        let before = attach(announced(reevaluate(rows, new.id), q.actor, new), owner, attachments);
        assert(before.keyed == m.keyed);
        remembered_outcomes_are_recalled(before, q, outcome);
    }
}

/// A keyed Message that was sent is answered the same way when it is sent again, and changes
/// nothing; the same key with another payload is a conflict.
pub proof fn keyed_messages_are_sent_once(
    m: Model,
    actor: AuthenticatedActor,
    q: KeyedRequest,
    new: NewMessage,
    attachments: Seq<AttachmentId>,
    again: NewMessage,
    again_attachments: Seq<AttachmentId>,
    other: TextKey,
)
    requires
        send_message(m, actor, q, new, attachments) is Ok,
        !names_no_question(again),
        q.request_key is Some,
        other != q.payload,
    ensures
        ({
            let (after, outcome) = send_message(m, actor, q, new, attachments)->Ok_0;
            &&& send_message(after, actor, q, again, again_attachments) == Ok::<
                (Model, KeyedOutcome),
                Refusal,
            >((after, outcome))
            &&& refuses_as_conflict(
                send_message(
                    after,
                    actor,
                    KeyedRequest { payload: other, ..q },
                    again,
                    again_attachments,
                ),
            )
        }),
{
    let (after, outcome) = send_message(m, actor, q, new, attachments)->Ok_0;
    if recall(m, q) == Ok::<Option<KeyedOutcome>, Refusal>(None) {
        let sent = posted(m, actor, new);
        let owner = AttachmentOwner::Message { message: new.id };
        let before = attach(heed(sent, new), owner, attachments);
        if let Some(id) = new.task {
            process_events_frame(
                sent,
                crate::contract::SupervisorEventKind::BlockingQuestion,
                id,
                None,
                sent.events.len(),
            );
            process_events_frame(
                sent,
                crate::contract::SupervisorEventKind::ResultReady,
                id,
                None,
                sent.events.len(),
            );
            let i = first_where(sent.tasks, is_task(id))->0;
            record_transition_frame(
                Model {
                    tasks: sent.tasks.update(
                        i,
                        TaskRow { state: crate::contract::TaskState::Waiting, ..sent.tasks[i] },
                    ),
                    ..sent
                },
                id,
                crate::contract::TaskState::Working,
                crate::contract::TaskState::Waiting,
                TransitionReason::Plain,
            );
        }
        assert(before.keyed == m.keyed);
        remembered_outcomes_are_recalled(before, q, outcome);
    }
}

} // verus!

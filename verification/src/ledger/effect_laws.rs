//! What the outcome of a command says, and that the ledger bears it out.
use vstd::prelude::*;

use crate::contract::{HarnessTier, ObservationCheckpoint, SupervisorEventDeliveryState, TaskState};
use crate::error::{ErrorCategory, Refusal};
use crate::identity::{MessageId, SupervisorEventId, TaskId};
use crate::ledger::{is_event, is_harness, Model};
use crate::ledger::create::KeyedRequest;
use crate::ledger::creation_laws::new_tasks_keep_their_submission;
use crate::ledger::dispatch_laws::{dispatched_tasks_were_due, refuses};
use crate::ledger::evidence::{is_snapshot, observe_repository, NewObservation};
use crate::ledger::execute::{authorize, execute, Caller, CommandOutcome, CoordinatorCommand};
use crate::ledger::outcome_laws::{
    approval_effects, cancellation_depends_on_the_state, observable, observing_says,
};
use crate::ledger::queries::{mark_read_upto, unread_count};
use crate::ledger::readback_laws::sent_messages_are_stored;
use crate::ledger::reconcile_laws::event_at;
use crate::ledger::route_laws::is_new;
use crate::ledger::schedule_laws::{places_are_found, stands};
use crate::ledger::session_laws::serves;
use crate::ledger::show_laws::{messages_differ, reading_lowers_the_unread_number};
use crate::rows::{AuthenticatedActor, HarnessKey};
use crate::select::{first_found, first_says, first_where};

verus! {

/// A command may be given, by an actor that is known.
pub open spec fn is_given(
    m: Model,
    caller: Caller,
    command: CoordinatorCommand,
    now: u64,
    actor: AuthenticatedActor,
) -> bool {
    authorize(m, caller, command, now) == Ok::<Option<AuthenticatedActor>, Refusal>(Some(actor))
}

/// A Message that is sent is the last one of the ledger, from the actor that sent it, and a Task
/// that is created is the last Task; the outcome names them.
pub proof fn what_is_made_is_named(
    m: Model,
    caller: Caller,
    command: CoordinatorCommand,
    now: u64,
    actor: AuthenticatedActor,
)
    requires
        is_given(m, caller, command, now, actor),
        execute(m, caller, command, now).1 is Ok,
    ensures
        ({
            let (after, answer) = execute(m, caller, command, now);
            &&& command matches CoordinatorCommand::SendMessage {
                request_key,
                payload,
                message,
                attachments,
            } ==> request_key is None ==> {
                &&& answer->Ok_0 == (CommandOutcome::MessageCreated { message_id: message.id })
                &&& after.messages.len() == m.messages.len() + 1
                &&& after.messages.last().id == message.id
                &&& after.messages.last().sender == actor.id
                &&& after.messages.last().recipient == message.to
                &&& after.messages.last().body == message.body
            }
            &&& command matches CoordinatorCommand::CreateTask {
                request_key,
                payload,
                task,
                depends_on,
                attachments,
            } ==> request_key is None ==> {
                &&& answer->Ok_0 == (CommandOutcome::TaskCreated {
                    task_id: task.id,
                    message_id: task.message,
                })
                &&& after.tasks.len() == m.tasks.len() + 1
                &&& after.tasks.last().id == task.id
                &&& after.messages.last().id == task.message
                &&& after.messages.last().sender == actor.id
            }
        }),
{
    match command {
        CoordinatorCommand::SendMessage { request_key, payload, message, attachments } => {
            if request_key is None {
                let q = KeyedRequest { actor: actor.id, creates_task: false, request_key, payload };
                assert(is_new(m, q));
                sent_messages_are_stored(m, actor, q, message, attachments@);
            }
        },
        CoordinatorCommand::CreateTask {
            request_key,
            payload,
            task,
            depends_on,
            attachments,
        } => {
            if request_key is None {
                let q = KeyedRequest { actor: actor.id, creates_task: true, request_key, payload };
                assert(is_new(m, q));
                first_says(m.harnesses, is_harness(task.worker));
                let h = first_where(m.harnesses, is_harness(task.worker))->0;
                assert(serves(m, task.worker, h));
                new_tasks_keep_their_submission(
                    m,
                    q,
                    task,
                    depends_on@,
                    attachments@,
                    h,
                    0,
                );
            }
        },
        _ => {},
    }
}

/// A Task that is reported as cancelled, or as being cancelled, approved or dispatched, is.
pub proof fn reported_states_are_true(
    m: Model,
    caller: Caller,
    command: CoordinatorCommand,
    now: u64,
    actor: AuthenticatedActor,
    i: int,
)
    requires
        is_given(m, caller, command, now, actor),
        execute(m, caller, command, now).1 is Ok,
        0 <= i < m.tasks.len(),
        stands(m, m.tasks[i].id, i),
    ensures
        ({
            let (after, answer) = execute(m, caller, command, now);
            let id = m.tasks[i].id;
            &&& command matches CoordinatorCommand::CancelTask { task_id } ==> task_id == id ==> {
                &&& answer->Ok_0 == (CommandOutcome::TaskCancellationUpdated {
                    task_id,
                    state: after.tasks[i].state,
                })
                &&& after.tasks[i].state == TaskState::Cancelled || after.tasks[i].state
                    == TaskState::Cancelling
                &&& after.tasks[i].id == id
            }
            &&& command matches CoordinatorCommand::ApproveTask {
                task_id,
                result_revision,
                observation_digest,
                digest,
                drift,
            } ==> task_id == id ==> {
                &&& answer->Ok_0 == (CommandOutcome::TaskApproved { task_id })
                &&& after.tasks[i].state == TaskState::Approved
                &&& after.tasks[i].approved_revision == Some(result_revision)
            }
            &&& command matches CoordinatorCommand::DispatchTask { task_id, facts } ==> task_id == id
                ==> {
                &&& answer->Ok_0 is TaskDispatching
                &&& after.tasks[i].state == TaskState::Dispatching
            }
        }),
{
    let id = m.tasks[i].id;
    places_are_found(m, id, i);
    match command {
        CoordinatorCommand::CancelTask { task_id } => {
            if task_id == id {
                cancellation_depends_on_the_state(m, id, i);
            }
        },
        CoordinatorCommand::ApproveTask {
            task_id,
            result_revision,
            observation_digest,
            digest,
            drift,
        } => {
            if task_id == id {
                approval_effects(m, id, i, result_revision, digest);
            }
        },
        CoordinatorCommand::DispatchTask { task_id, facts } => {
            if task_id == id {
                dispatched_tasks_were_due(m, id, i, facts@);
            }
        },
        _ => {},
    }
}

/// The number of Messages that an inbox is reported to have marked as read is what the unread
/// number went down by.
pub proof fn reported_marks_are_true(
    m: Model,
    caller: Caller,
    command: CoordinatorCommand,
    now: u64,
    actor: AuthenticatedActor,
    other: HarnessKey,
)
    requires
        is_given(m, caller, command, now, actor),
        execute(m, caller, command, now).1 is Ok,
        command is MarkInboxRead,
        messages_differ(m),
        other != actor.id,
    ensures
        ({
            let (after, answer) = execute(m, caller, command, now);
            &&& answer->Ok_0 is InboxMarkedRead
            &&& unread_count(after, actor.id) + answer->Ok_0->InboxMarkedRead_count
                == unread_count(m, actor.id)
            &&& unread_count(after, other) == unread_count(m, other)
        }),
{
    match command {
        CoordinatorCommand::MarkInboxRead { message_ids } => {
            reading_lowers_the_unread_number(m, actor, message_ids@, other);
            marks_are_few(m, actor.id, message_ids@, message_ids@.len());
        },
        _ => {},
    }
}

proof fn marks_are_few(
    m: Model,
    harness: HarnessKey,
    ids: Seq<MessageId>,
    n: nat,
)
    requires
        n <= ids.len(),
    ensures
        mark_read_upto(m, harness, ids, n).1 <= n,
    decreases n,
{
    if n > 0 {
        marks_are_few(m, harness, ids, (n - 1) as nat);
    }
}

/// The state in which an event is reported to be is the one that it is in.
pub proof fn reported_event_states_are_true(
    m: Model,
    caller: Caller,
    command: CoordinatorCommand,
    now: u64,
    actor: AuthenticatedActor,
    id: SupervisorEventId,
    e: int,
)
    requires
        is_given(m, caller, command, now, actor),
        execute(m, caller, command, now).1 is Ok,
        event_at(m, id, e),
        match command {
            CoordinatorCommand::AcceptSupervisorEvent { event_id, .. } => event_id == id,
            CoordinatorCommand::ReleaseSupervisorEvent { event_id, .. } => event_id == id,
            CoordinatorCommand::MarkSupervisorEventUnknown { event_id, .. } => event_id == id,
            CoordinatorCommand::ReconcileSupervisorEvent { event_id, .. } => event_id == id,
            _ => false,
        },
    ensures
        ({
            let (after, answer) = execute(m, caller, command, now);
            &&& answer->Ok_0 == (CommandOutcome::SupervisorEventUpdated {
                event_id: id,
                state: after.events[e].state,
            })
            &&& after.events[e].id == id
            &&& command is AcceptSupervisorEvent ==> after.events[e].state
                == SupervisorEventDeliveryState::Accepted
            &&& command is ReleaseSupervisorEvent ==> after.events[e].state
                == SupervisorEventDeliveryState::Pending
            &&& command is MarkSupervisorEventUnknown ==> after.events[e].state
                == SupervisorEventDeliveryState::Unknown
        }),
{
    first_found(m.events, is_event(id), e);
}

// ---------------------------------------------------------------------------------------------
// Observations
// ---------------------------------------------------------------------------------------------

/// The Supervisor observes a repository to approve and to lift Holds, the Worker of the Task to
/// submit, to cancel and to fail; nobody else does, and nobody by itself before a dispatch. What is
/// observed is kept behind what was observed before.
pub proof fn tiers_observe_at_their_checkpoints(
    m: Model,
    actor: AuthenticatedActor,
    task: TaskId,
    i: int,
    checkpoint: ObservationCheckpoint,
    o: NewObservation,
)
    requires
        stands(m, task, i),
        observable(m, task, o),
    ensures
        ({
            let (after, answer) = observe_repository(m, actor, task, checkpoint, Ok(o));
            let may = (actor.tier == HarnessTier::Supervisor && (checkpoint
                == ObservationCheckpoint::Approval || checkpoint
                == ObservationCheckpoint::HoldClear)) || (actor.tier == HarnessTier::Worker
                && actor.id == m.tasks[i].worker && (checkpoint == ObservationCheckpoint::Result
                || checkpoint == ObservationCheckpoint::Cancel || checkpoint
                == ObservationCheckpoint::Failure));
            &&& !may ==> refuses(m, (after, answer), ErrorCategory::Forbidden)
            &&& may ==> {
                &&& answer is Ok
                &&& after.observations.len() == m.observations.len() + 1
                &&& after.observations.last().id == o.id
                &&& after.observations.last().task == task
                &&& after.observations.last().checkpoint == checkpoint
                &&& after.observations.last().digest == o.digest
                &&& after.observations.last().out_of_scope == o.out_of_scope
                &&& after.tasks == m.tasks
                &&& exists|s: int|
                    0 <= s < after.snapshots.len() && (#[trigger] after.snapshots[s]).task == task
                        && after.snapshots[s].checkpoint == checkpoint && after.snapshots[s].content
                        == o.content
                &&& forall|s: int|
                    0 <= s < m.snapshots.len() && (m.snapshots[s].task != task
                        || m.snapshots[s].checkpoint != checkpoint) ==> #[trigger]
                    after.snapshots[s] == m.snapshots[s]
            }
        }),
{
    places_are_found(m, task, i);
    observing_says(m, task, o);
    let after = observe_repository(m, actor, task, checkpoint, Ok(o)).0;
    first_says(m.snapshots, is_snapshot(task, checkpoint));
    match first_where(m.snapshots, is_snapshot(task, checkpoint)) {
        Some(s) => {
            if after != m && checkpoint != ObservationCheckpoint::BeforeDispatch {
                assert(after.snapshots[s].content == o.content);
            }
        },
        None => {
            let s = m.snapshots.len() as int;
            if after != m {
                assert(after.snapshots[s].content == o.content);
            }
        },
    }
}

} // verus!

use herdr_coordinator::adapter::AdapterLifecycle;
use herdr_coordinator::contract::{
    DeliveryIntent, DependencyCondition, DependencyFailurePolicy, HarnessTier, MessageKind,
    NativeSessionHealth, ObservationCheckpoint, RepositoryAccess, SessionReusePolicy, SupervisorEventDeliveryState,
    SupervisorEventKind, TaskRole, TaskSchedulingState, TaskState,
};
use herdr_coordinator::error::{CoordinatorError, ErrorCategory};
use herdr_coordinator::identity::{
    AttachmentId, HarnessSessionId, HostConnectionId, MessageId, RepositoryObservationId,
    SupervisorEventId, TaskGraphWatchId, TaskId,
};
use herdr_coordinator::ledger::attention::SupervisorEventResolution;
use herdr_coordinator::ledger::binding::{
    binding_reason, binding_reason_code, SessionReuseDecision,
};
use herdr_coordinator::ledger::connections::NewConnection;
use herdr_coordinator::ledger::create::{DeclaredDependency, NewTask};
use herdr_coordinator::ledger::dispatch::DispatchFacts;
use herdr_coordinator::ledger::evidence::NewObservation;
use herdr_coordinator::ledger::execute::{Caller, CommandOutcome, CoordinatorCommand};
use herdr_coordinator::ledger::hosts::ReportedState;
use herdr_coordinator::ledger::messages::{NewMessage, NewResult};
use herdr_coordinator::ledger::notices::{summarize, write_event_key};
use herdr_coordinator::ledger::query::{CoordinatorQuery, QueryRows};
use herdr_coordinator::ledger::reconcile::DeliveryUnknownResolution;
use herdr_coordinator::ledger::sessions::NewHarness;
use herdr_coordinator::ledger::Ledger;
use herdr_coordinator::names::NameTable;
use herdr_coordinator::rows::{
    AdapterRow, AttachmentRow, BindingReason, ConnectionStatus, EventOrigin, HoldReason, Wording,
};

const SUPERVISOR: Caller = Caller::Session { capability: Some(1) };
const WORKER: Caller = Caller::Session { capability: Some(2) };
const HOST: Caller = Caller::Host { capability: Some(3) };
const NOW: u64 = 1_000_000;
const DIGEST: &str = "0123456789abcdef0123456789abcdef0123456789abcdef0123456789abcdef";

fn give(ledger: &mut Ledger, caller: Caller, command: CoordinatorCommand) -> CommandOutcome {
    ledger.execute(caller, command, NOW).unwrap()
}

fn refused(ledger: &mut Ledger, caller: Caller, command: CoordinatorCommand) -> CoordinatorError {
    ledger.execute(caller, command, NOW).unwrap_err()
}

fn harness(key: u64, tier: HarnessTier) -> NewHarness {
    NewHarness {
        key,
        tier,
        worktree: 7,
        definition: key,
        model: None,
        session: HarnessSessionId(key as u128 * 10),
        capability: key,
        source: None,
    }
}

fn network() -> Ledger {
    let mut ledger = Ledger::new();
    give(
        &mut ledger,
        Caller::Bootstrap,
        CoordinatorCommand::RegisterSupervisor { supervisor: harness(1, HarnessTier::Supervisor) },
    );
    give(
        &mut ledger,
        SUPERVISOR,
        CoordinatorCommand::StartWorker {
            worker: harness(2, HarnessTier::Worker),
            profile: 5,
            issued: false,
        },
    );
    let bound = give(
        &mut ledger,
        WORKER,
        CoordinatorCommand::BindHostConnection {
            instance_id: "host".to_owned(),
            connection: NewConnection {
                id: HostConnectionId(30),
                capability: 3,
                lease_seconds: 30,
                instance: 6,
            },
        },
    );
    assert!(matches!(bound, CommandOutcome::HostConnectionBound { generation: 2, .. }));
    assert_eq!(give(&mut ledger, HOST, CoordinatorCommand::RecordHostReady), CommandOutcome::HostReady);
    ledger
}

fn task(id: u128) -> NewTask {
    NewTask {
        id: TaskId(id),
        message: MessageId(id + 1000),
        worker: 2,
        related: None,
        role: TaskRole::Implementation,
        policy: SessionReusePolicy::Fresh,
        preferred_session: None,
        access: RepositoryAccess::Mutating,
        worktree: 7,
        canonical_root: 7,
        submission: 13,
    }
}

fn creation(id: u128, depends_on: Vec<DeclaredDependency>) -> CoordinatorCommand {
    CoordinatorCommand::CreateTask {
        request_key: None,
        payload: 0,
        task: task(id),
        depends_on,
        attachments: Vec::new(),
    }
}

fn observation(id: u128, out_of_scope: bool) -> NewObservation {
    NewObservation { id: RepositoryObservationId(id), digest: 9, content: 8, out_of_scope }
}

fn state_of(ledger: &Ledger, id: u128) -> TaskState {
    ledger.get_task(TaskId(id)).unwrap().task.state
}

fn decision(reusable: bool) -> SessionReuseDecision {
    SessionReuseDecision {
        reusable,
        effective_policy: SessionReusePolicy::Fresh,
        reason_code: "fresh_unbound".to_owned(),
        reason: "never used".to_owned(),
        code: 0,
        words: 1,
    }
}

fn facts(id: u128) -> DispatchFacts {
    DispatchFacts {
        policy: SessionReusePolicy::Fresh,
        decision: decision(true),
        captured: Ok(observation(id * 100, false)),
        lock: None,
    }
}

fn dispatch(ledger: &mut Ledger, id: u128) -> MessageId {
    assert!(ledger.preflight_dispatch(TaskId(id)).is_ok());
    let question = ledger.binding_question(TaskId(id), SessionReusePolicy::Fresh).unwrap();
    assert!(question.candidate.same_worker);
    match give(
        ledger,
        SUPERVISOR,
        CoordinatorCommand::DispatchTask { task_id: TaskId(id), facts: facts(id) },
    ) {
        CommandOutcome::TaskDispatching { message_id, .. } => message_id,
        other => panic!("{other:?}"),
    }
}

fn start(ledger: &mut Ledger, id: u128) {
    let message_id = dispatch(ledger, id);
    give(
        ledger,
        HOST,
        CoordinatorCommand::AcceptDelivery {
            message_id,
            native_correlation: "c".to_owned(),
            correlation: 14,
        },
    );
    assert_eq!(state_of(ledger, id), TaskState::Working);
}

fn stored(id: u128) -> AttachmentRow {
    AttachmentRow {
        id: AttachmentId(id),
        digest: 16,
        size_bytes: 3,
        media_type: 17,
        original_name: 18,
        storage_path: 19,
    }
}

fn result(id: u128) -> NewResult {
    NewResult { task: TaskId(id), turn: 4, manifest: 21, summary: 22, snapshot: stored(id) }
}

fn finish(ledger: &mut Ledger, id: u128, out_of_scope: bool) -> CommandOutcome {
    give(
        ledger,
        HOST,
        CoordinatorCommand::CompleteTask {
            native_turn_id: "turn".to_owned(),
            result: result(id),
            attachments: Vec::new(),
            verification: Vec::new(),
        },
    );
    give(
        ledger,
        HOST,
        CoordinatorCommand::RecordTurnCompleted {
            task_id: TaskId(id),
            turn: 4,
            succeeded: true,
            captured: Ok(observation(id * 100 + 1, out_of_scope)),
            message_id: MessageId(id + 2000),
        },
    )
}

fn approve(ledger: &mut Ledger, id: u128) -> CommandOutcome {
    give(
        ledger,
        SUPERVISOR,
        CoordinatorCommand::CaptureRepositoryObservation {
            task_id: TaskId(id),
            checkpoint: ObservationCheckpoint::Approval,
            captured: Ok(observation(id * 100 + 2, false)),
        },
    );
    give(
        ledger,
        SUPERVISOR,
        CoordinatorCommand::ApproveTask {
            task_id: TaskId(id),
            result_revision: 1,
            observation_digest: DIGEST.to_owned(),
            digest: 9,
            drift: None,
        },
    )
}

#[test]
fn a_task_is_dispatched_reviewed_and_approved() {
    let mut ledger = network();
    assert_eq!(
        give(&mut ledger, SUPERVISOR, creation(1, Vec::new())),
        CommandOutcome::TaskCreated { task_id: TaskId(1), message_id: MessageId(1001) }
    );
    assert_eq!(state_of(&ledger, 1), TaskState::Queued);
    start(&mut ledger, 1);
    assert!(ledger.leases.iter().any(|lease| lease.task == TaskId(1) && !lease.released));
    assert_eq!(
        finish(&mut ledger, 1, false),
        CommandOutcome::TurnCompleted { task_id: TaskId(1), state: TaskState::Reviewing }
    );
    assert!(ledger.events.iter().any(|event| event.kind == SupervisorEventKind::ResultReady));
    assert_eq!(approve(&mut ledger, 1), CommandOutcome::TaskApproved { task_id: TaskId(1) });
    assert_eq!(state_of(&ledger, 1), TaskState::Approved);
    assert!(ledger.leases.iter().all(|lease| lease.released));
    assert!(ledger.active_holds().is_empty());
    let again = refused(&mut ledger, SUPERVISOR, CoordinatorCommand::CancelTask { task_id: TaskId(1) });
    assert_eq!(again.category, ErrorCategory::InvalidState);
}

#[test]
fn dependent_tasks_wait_for_the_approval() {
    let mut ledger = network();
    give(&mut ledger, SUPERVISOR, creation(1, Vec::new()));
    give(
        &mut ledger,
        SUPERVISOR,
        creation(
            2,
            vec![DeclaredDependency {
                task: TaskId(1),
                condition: DependencyCondition::Approved,
                policy: DependencyFailurePolicy::Cancel,
                root: Ok(7),
            }],
        ),
    );
    let waiting = ledger.get_task(TaskId(2)).unwrap().task;
    assert_eq!(waiting.scheduling, TaskSchedulingState::Blocked);
    assert_eq!(
        ledger.preflight_dispatch(TaskId(2)).unwrap_err().message,
        "Task dependencies are not satisfied"
    );
    start(&mut ledger, 1);
    finish(&mut ledger, 1, false);
    assert_eq!(
        ledger.get_task(TaskId(2)).unwrap().task.scheduling,
        TaskSchedulingState::Blocked
    );
    approve(&mut ledger, 1);
    assert_eq!(ledger.get_task(TaskId(2)).unwrap().task.scheduling, TaskSchedulingState::Ready);
}

#[test]
fn a_cancelled_task_takes_its_dependents_along() {
    let mut ledger = network();
    give(&mut ledger, SUPERVISOR, creation(1, Vec::new()));
    for id in 2..4 {
        give(
            &mut ledger,
            SUPERVISOR,
            creation(
                id,
                vec![DeclaredDependency {
                    task: TaskId(id - 1),
                    condition: DependencyCondition::ResultReady,
                    policy: DependencyFailurePolicy::Cancel,
                    root: Ok(7),
                }],
            ),
        );
    }
    give(&mut ledger, SUPERVISOR, CoordinatorCommand::CancelTask { task_id: TaskId(1) });
    for id in 1..4 {
        assert_eq!(state_of(&ledger, id), TaskState::Cancelled);
    }
}

#[test]
fn unknown_dependencies_are_refused() {
    let mut ledger = network();
    let error = refused(
        &mut ledger,
        SUPERVISOR,
        creation(
            1,
            vec![DeclaredDependency {
                task: TaskId(99),
                condition: DependencyCondition::Approved,
                policy: DependencyFailurePolicy::KeepBlocked,
                root: Ok(7),
            }],
        ),
    );
    assert_eq!(error.category, ErrorCategory::NotFound);
    assert_eq!(
        error.message,
        "dependency Task 00000000-0000-0000-0000-000000000063 does not exist"
    );
    assert!(ledger.tasks.is_empty());
}

#[test]
fn a_worktree_has_one_writer() {
    let mut ledger = network();
    give(&mut ledger, SUPERVISOR, creation(1, Vec::new()));
    give(&mut ledger, SUPERVISOR, creation(2, Vec::new()));
    assert_eq!(
        ledger.preflight_dispatch(TaskId(2)).unwrap_err().message,
        "an earlier Ready Task owns the Worker FIFO head"
    );
    start(&mut ledger, 1);
    assert_eq!(
        ledger.preflight_dispatch(TaskId(2)).unwrap_err().message,
        "Worker already owns an active Task"
    );
}

#[test]
fn refused_dispatches_leave_the_task_queued() {
    let mut ledger = network();
    give(&mut ledger, SUPERVISOR, creation(1, Vec::new()));
    let blocked = DispatchFacts { decision: decision(false), ..facts(1) };
    let error = refused(
        &mut ledger,
        SUPERVISOR,
        CoordinatorCommand::DispatchTask { task_id: TaskId(1), facts: blocked },
    );
    assert_eq!(error.category, ErrorCategory::InvalidState);
    assert_eq!(error.message, "Session selection blocked: never used (fresh_unbound)");
    assert!(ledger.bindings.is_empty());
    let unseen = DispatchFacts {
        captured: Err(CoordinatorError::new(
            ErrorCategory::RepositoryBlocked,
            "no repository".to_owned(),
        )),
        ..facts(1)
    };
    let error = refused(
        &mut ledger,
        SUPERVISOR,
        CoordinatorCommand::DispatchTask { task_id: TaskId(1), facts: unseen },
    );
    assert_eq!(error.message, "no repository");
    assert_eq!(ledger.bindings.len(), 1);
    assert!(ledger.snapshots.is_empty());
    let locked = DispatchFacts {
        lock: Some(CoordinatorError::new(
            ErrorCategory::RepositoryBlocked,
            "worktree OS lease lock is held".to_owned(),
        )),
        ..facts(1)
    };
    let error = refused(
        &mut ledger,
        SUPERVISOR,
        CoordinatorCommand::DispatchTask { task_id: TaskId(1), facts: locked },
    );
    assert_eq!(error.category, ErrorCategory::RepositoryBlocked);
    assert!(ledger.snapshots.is_empty());
    assert!(ledger.observations.is_empty());
    assert_eq!(state_of(&ledger, 1), TaskState::Queued);
    assert_eq!(ledger.bindings.len(), 1);
    dispatch(&mut ledger, 1);
    assert_eq!(state_of(&ledger, 1), TaskState::Dispatching);
    assert_eq!(ledger.snapshots.len(), 1);
}

#[test]
fn bindings_say_why_they_were_made() {
    let mut ledger = network();
    give(&mut ledger, SUPERVISOR, creation(1, Vec::new()));
    let fresh = ledger.binding_question(TaskId(1), SessionReusePolicy::Fresh).unwrap();
    assert!(fresh.compatibility_only && !fresh.existing);
    let settle = |ledger: &mut Ledger, question, reusable| {
        ledger.settle_task_session_binding(
            TaskId(1),
            SessionReusePolicy::Fresh,
            SessionReusePolicy::Fresh,
            question,
            &decision(reusable),
        )
    };
    settle(&mut ledger, fresh, true).unwrap();
    let mut names = NameTable::new();
    names.intern("same_worker");
    names.intern("the Session is idle");
    let reason = ledger.bindings[0].reason;
    assert_eq!(reason, BindingReason::FreshUnbound);
    assert_eq!(binding_reason_code(&names, reason).unwrap(), "fresh_unbound_session");
    assert_eq!(
        binding_reason(&names, reason).unwrap(),
        "fresh compatible native Session has not executed another Task"
    );
    let judged = BindingReason::Evaluated { code: 0, reason: 1 };
    assert_eq!(binding_reason_code(&names, judged).unwrap(), "same_worker");
    assert_eq!(binding_reason(&names, judged).unwrap(), "the Session is idle");
    assert_eq!(binding_reason(&names, BindingReason::Evaluated { code: 0, reason: 9 }), None);
    let bound = ledger.binding_question(TaskId(1), SessionReusePolicy::Fresh).unwrap();
    assert!(bound.existing);
    let error = settle(&mut ledger, bound, false).unwrap_err();
    assert_eq!(error.category, ErrorCategory::TargetOffline);
    assert!(ledger.bindings[0].superseded);
}

#[test]
fn workers_claim_the_head_of_their_line() {
    let mut ledger = network();
    let nothing =
        give(&mut ledger, HOST, CoordinatorCommand::ClaimNextTask { facts: facts(1) });
    assert!(matches!(nothing, CommandOutcome::NoTaskAvailable));
    give(&mut ledger, SUPERVISOR, creation(1, Vec::new()));
    give(&mut ledger, SUPERVISOR, creation(2, Vec::new()));
    let blocked = DispatchFacts { decision: decision(false), ..facts(1) };
    let answer =
        give(&mut ledger, HOST, CoordinatorCommand::ClaimNextTask { facts: blocked });
    assert!(matches!(answer, CommandOutcome::NoTaskAvailable));
    let event = ledger.events.last().unwrap();
    assert_eq!(event.origin, EventOrigin::SessionBlocked { task: TaskId(1) });
    assert_eq!(event.summary, Some(Wording::SelectionBlocked { reason: 1, code: 0 }));
    let claimed =
        give(&mut ledger, HOST, CoordinatorCommand::ClaimNextTask { facts: facts(1) });
    match claimed {
        CommandOutcome::TaskDispatching { task_id, .. } => assert_eq!(task_id, TaskId(1)),
        other => panic!("{other:?}"),
    }
    let busy =
        give(&mut ledger, HOST, CoordinatorCommand::ClaimNextTask { facts: facts(2) });
    assert!(matches!(busy, CommandOutcome::NoTaskAvailable));
    assert_eq!(state_of(&ledger, 2), TaskState::Queued);
}

#[test]
fn drift_outside_the_scopes_holds_the_worktree() {
    let mut ledger = network();
    give(&mut ledger, SUPERVISOR, creation(1, Vec::new()));
    start(&mut ledger, 1);
    finish(&mut ledger, 1, true);
    let holds = ledger.active_holds();
    assert_eq!(holds.len(), 1);
    assert_eq!(holds[0].task, TaskId(1));
    let error = refused(
        &mut ledger,
        SUPERVISOR,
        CoordinatorCommand::ClearWorktreeHold {
            task_id: TaskId(1),
            observation_digest: DIGEST.to_owned(),
            digest: 9,
            audit_note: "checked".to_owned(),
            note: 24,
            drift: None,
        },
    );
    assert_eq!(error.message, "required trusted repository checkpoint is missing");
}

#[test]
fn questions_wait_for_their_reply() {
    let mut ledger = network();
    give(&mut ledger, SUPERVISOR, creation(1, Vec::new()));
    start(&mut ledger, 1);
    let question = |to: u64, kind: MessageKind, id: u128, reply_to: Option<MessageId>| {
        CoordinatorCommand::SendMessage {
            request_key: None,
            payload: 0,
            message: NewMessage {
                id: MessageId(id),
                task: Some(TaskId(1)),
                to,
                kind,
                reply_to,
                delivery: DeliveryIntent::FollowUp,
                body: 11,
                text: 12,
            },
            attachments: Vec::new(),
        }
    };
    give(&mut ledger, HOST, question(1, MessageKind::Question, 50, None));
    assert_eq!(state_of(&ledger, 1), TaskState::Waiting);
    let stray = refused(
        &mut ledger,
        SUPERVISOR,
        question(2, MessageKind::Reply, 51, Some(MessageId(49))),
    );
    assert_eq!(stray.category, ErrorCategory::InvalidInput);
    give(
        &mut ledger,
        SUPERVISOR,
        question(2, MessageKind::Reply, 51, Some(MessageId(50))),
    );
    give(
        &mut ledger,
        HOST,
        CoordinatorCommand::AcceptDelivery {
            message_id: MessageId(51),
            native_correlation: "r".to_owned(),
            correlation: 15,
        },
    );
    assert_eq!(state_of(&ledger, 1), TaskState::Working);
    let twice = refused(
        &mut ledger,
        SUPERVISOR,
        question(2, MessageKind::Reply, 52, Some(MessageId(50))),
    );
    assert_eq!(twice.category, ErrorCategory::Forbidden);
}

#[test]
fn keyed_creations_answer_alike() {
    let mut ledger = network();
    let keyed = |id: u128, payload: u64| CoordinatorCommand::CreateTask {
        request_key: Some(11),
        payload,
        task: task(id),
        depends_on: Vec::new(),
        attachments: Vec::new(),
    };
    let first = give(&mut ledger, SUPERVISOR, keyed(1, 20));
    assert_eq!(give(&mut ledger, SUPERVISOR, keyed(2, 20)), first);
    assert_eq!(ledger.tasks.len(), 1);
    let other = refused(&mut ledger, SUPERVISOR, keyed(3, 21));
    assert_eq!(other.category, ErrorCategory::Conflict);
}

#[test]
fn events_are_claimed_in_order_and_one_at_a_time() {
    let mut ledger = network();
    give(&mut ledger, SUPERVISOR, creation(1, Vec::new()));
    start(&mut ledger, 1);
    finish(&mut ledger, 1, false);
    let claimed = give(&mut ledger, SUPERVISOR, CoordinatorCommand::ClaimNextSupervisorEvent);
    let event = match claimed {
        CommandOutcome::SupervisorEventClaimed { event: Some(event) } => event,
        other => panic!("{other:?}"),
    };
    assert_eq!(event.kind, SupervisorEventKind::ResultReady);
    assert_eq!(
        give(&mut ledger, SUPERVISOR, CoordinatorCommand::ClaimNextSupervisorEvent),
        CommandOutcome::SupervisorEventClaimed { event: None }
    );
    give(
        &mut ledger,
        SUPERVISOR,
        CoordinatorCommand::MarkSupervisorEventUnknown {
            event_id: event.id,
            diagnostic: "timed out".to_owned(),
            key: 23,
        },
    );
    assert_eq!(
        give(
            &mut ledger,
            SUPERVISOR,
            CoordinatorCommand::ReconcileSupervisorEvent {
                event_id: event.id,
                resolution: SupervisorEventResolution::Retry,
                audit_note: "not seen".to_owned(),
                note: 24,
            },
        ),
        CommandOutcome::SupervisorEventUpdated {
            event_id: event.id,
            state: SupervisorEventDeliveryState::Pending,
        }
    );
    assert_eq!(
        give(
            &mut ledger,
            SUPERVISOR,
            CoordinatorCommand::AcknowledgeSupervisorEvents { event_ids: vec![event.id] },
        ),
        CommandOutcome::SupervisorEventUpdated {
            event_id: event.id,
            state: SupervisorEventDeliveryState::Processed,
        }
    );
    let unknown = refused(
        &mut ledger,
        SUPERVISOR,
        CoordinatorCommand::AcknowledgeSupervisorEvents { event_ids: vec![SupervisorEventId(77)] },
    );
    assert_eq!(unknown.message, "event is not safely acknowledgeable");
}

#[test]
fn watched_roots_wake_the_supervisor_once() {
    let mut ledger = network();
    give(&mut ledger, SUPERVISOR, creation(1, Vec::new()));
    give(
        &mut ledger,
        SUPERVISOR,
        CoordinatorCommand::WatchTaskGraph {
            watch_id: TaskGraphWatchId(5),
            root_task_ids: vec![TaskId(1)],
            request_key: None,
        },
    );
    give(&mut ledger, SUPERVISOR, CoordinatorCommand::CancelTask { task_id: TaskId(1) });
    let woken = ledger
        .events
        .iter()
        .filter(|event| event.kind == SupervisorEventKind::TaskGraphCompleted)
        .count();
    assert_eq!(woken, 1);
}

#[test]
fn a_new_connection_fences_the_former_one() {
    let mut ledger = network();
    give(
        &mut ledger,
        WORKER,
        CoordinatorCommand::BindHostConnection {
            instance_id: "other".to_owned(),
            connection: NewConnection {
                id: HostConnectionId(31),
                capability: 4,
                lease_seconds: 30,
                instance: 6,
            },
        },
    );
    let error = refused(&mut ledger, HOST, CoordinatorCommand::RenewHostConnection);
    assert_eq!(error.category, ErrorCategory::Unauthenticated);
    assert!(matches!(
        give(
            &mut ledger,
            Caller::Host { capability: Some(4) },
            CoordinatorCommand::RenewHostConnection,
        ),
        CommandOutcome::HostConnectionRenewed { .. }
    ));
    let late = ledger.execute(
        Caller::Host { capability: Some(4) },
        CoordinatorCommand::RenewHostConnection,
        NOW + 31_000_000,
    );
    assert_eq!(late.unwrap_err().category, ErrorCategory::Unauthenticated);
}

#[test]
fn host_events_replay() {
    let mut ledger = network();
    let event = |sequence: u64, content: u64| CoordinatorCommand::RecordHostEvent {
        sequence,
        content,
        size: 10,
    };
    give(&mut ledger, HOST, event(1, 60));
    give(&mut ledger, HOST, event(1, 60));
    assert_eq!(ledger.host_events.len(), 1);
    assert_eq!(refused(&mut ledger, HOST, event(1, 61)).category, ErrorCategory::Conflict);
    assert_eq!(refused(&mut ledger, HOST, event(3, 62)).category, ErrorCategory::Conflict);
}

#[test]
fn doubtful_deliveries_are_reconciled_by_the_supervisor() {
    let mut ledger = network();
    give(&mut ledger, SUPERVISOR, creation(1, Vec::new()));
    let message_id = dispatch(&mut ledger, 1);
    assert_eq!(
        give(
            &mut ledger,
            HOST,
            CoordinatorCommand::MarkDeliveryUnknown {
                message_id,
                diagnostic: "timed out".to_owned(),
                key: 23,
            },
        ),
        CommandOutcome::DeliveryUnknownUpdated {
            task_id: TaskId(1),
            state: TaskState::DeliveryUnknown,
        }
    );
    give(
        &mut ledger,
        SUPERVISOR,
        CoordinatorCommand::CaptureRepositoryObservation {
            task_id: TaskId(1),
            checkpoint: ObservationCheckpoint::HoldClear,
            captured: Ok(observation(140, false)),
        },
    );
    let resolved = ledger.execute(
        SUPERVISOR,
        CoordinatorCommand::ResolveDeliveryUnknown {
            task_id: TaskId(1),
            resolution: DeliveryUnknownResolution::Cancel,
            observation_digest: DIGEST.to_owned(),
            digest: 9,
            audit_note: "nothing arrived".to_owned(),
            note: 24,
            drift: None,
        },
        NOW,
    );
    match resolved {
        Ok(CommandOutcome::DeliveryUnknownUpdated { state, .. }) => {
            assert_eq!(state, TaskState::Cancelled);
        }
        other => panic!("{other:?}"),
    }
}

#[test]
fn workers_cannot_give_the_supervisors_commands() {
    let mut ledger = network();
    let error = refused(&mut ledger, HOST, creation(1, Vec::new()));
    assert_eq!(error.category, ErrorCategory::Forbidden);
    assert_eq!(error.message, "Supervisor authority is required");
    let error = refused(
        &mut ledger,
        Caller::Session { capability: None },
        CoordinatorCommand::DeactivateWorkspace,
    );
    assert_eq!(error.message, "Session capability is invalid or expired");
    let error = refused(&mut ledger, Caller::Bootstrap, CoordinatorCommand::RecordHostReady);
    assert_eq!(error.category, ErrorCategory::Forbidden);
}

#[test]
fn a_network_has_one_supervisor() {
    let mut ledger = network();
    let error = refused(
        &mut ledger,
        Caller::Bootstrap,
        CoordinatorCommand::RegisterSupervisor { supervisor: harness(9, HarnessTier::Supervisor) },
    );
    assert_eq!(error.message, "an active Supervisor already exists");
    let busy = refused(&mut ledger, SUPERVISOR, CoordinatorCommand::DeactivateWorkspace);
    assert_eq!(busy.category, ErrorCategory::Conflict);
    give(&mut ledger, SUPERVISOR, CoordinatorCommand::StopWorker { worker_id: 2 });
    give(&mut ledger, HOST, CoordinatorCommand::RecordHostStopped { clean: true });
    assert_eq!(
        give(&mut ledger, SUPERVISOR, CoordinatorCommand::DeactivateWorkspace),
        CommandOutcome::WorkspaceDeactivated
    );
}

#[test]
fn queries_show_what_an_actor_may_see() {
    let mut ledger = network();
    give(&mut ledger, SUPERVISOR, creation(1, Vec::new()));
    match ledger.query(HOST, CoordinatorQuery::ListHarnesses, NOW).unwrap() {
        QueryRows::Harnesses(keys) => assert_eq!(keys, vec![1, 2]),
        other => panic!("{other:?}"),
    }
    match ledger.query(HOST, CoordinatorQuery::ListTasks, NOW).unwrap() {
        QueryRows::Tasks(tasks) => assert_eq!(tasks.len(), 1),
        other => panic!("{other:?}"),
    }
    match ledger.query(SUPERVISOR, CoordinatorQuery::TaskGraph, NOW).unwrap() {
        QueryRows::TaskGraph(rows) => assert_eq!(rows.len(), 1),
        other => panic!("{other:?}"),
    }
    let error = ledger.query(HOST, CoordinatorQuery::TaskGraph, NOW).unwrap_err();
    assert_eq!(error.message, "Supervisor authority is required");
    let error = ledger.query(Caller::Bootstrap, CoordinatorQuery::Inbox, NOW).unwrap_err();
    assert_eq!(error.message, "a live Session or Host capability is required");
    let error = ledger
        .query(SUPERVISOR, CoordinatorQuery::GetTask { task_id: TaskId(8) }, NOW)
        .unwrap_err();
    assert_eq!(error.message, "Task does not exist");
    let error = ledger
        .query(
            SUPERVISOR,
            CoordinatorQuery::GetAttachment { attachment_id: AttachmentId(8) },
            NOW,
        )
        .unwrap_err();
    assert_eq!(error.message, "Attachment does not exist");
    match ledger.query(HOST, CoordinatorQuery::SessionSelf, NOW).unwrap() {
        QueryRows::SessionSelf(session, definition) => {
            assert_eq!(session.id, HarnessSessionId(20));
            assert_eq!(definition, 2);
        }
        other => panic!("{other:?}"),
    }
    start(&mut ledger, 1);
    match ledger.query(HOST, CoordinatorQuery::Inbox, NOW).unwrap() {
        QueryRows::Inbox(rows) => assert_eq!(rows.len(), 1),
        other => panic!("{other:?}"),
    }
    match ledger
        .query(HOST, CoordinatorQuery::ResolvedTaskInput { task_id: TaskId(1) }, NOW)
        .unwrap()
    {
        QueryRows::ResolvedTaskInput(input) => {
            assert!(input.explicit_attachments.is_empty());
            assert!(input.dependency_results.is_empty());
        }
        other => panic!("{other:?}"),
    }
    give(&mut ledger, HOST, CoordinatorCommand::MarkInboxRead { message_ids: vec![MessageId(1001)] });
    match ledger.query(HOST, CoordinatorQuery::Inbox, NOW).unwrap() {
        QueryRows::Inbox(rows) => assert!(rows.is_empty()),
        other => panic!("{other:?}"),
    }
}

#[test]
fn events_are_told_in_fixed_words() {
    let hold = EventOrigin::Hold { task: TaskId(1), reason: HoldReason::CancellationFailed };
    assert_eq!(
        write_event_key(hold),
        "hold:00000000-0000-0000-0000-000000000001:cancellation_failed"
    );
    assert_eq!(
        summarize(hold).unwrap(),
        "Repository Worktree Hold created: cancellation_failed"
    );
    let doubt = EventOrigin::Hold { task: TaskId(1), reason: HoldReason::DeliveryUnknown };
    assert_eq!(
        summarize(doubt).unwrap(),
        "Repository Worktree Hold created after ambiguous native delivery"
    );
    let result = EventOrigin::Result { task: TaskId(1), revision: 12 };
    assert_eq!(
        write_event_key(result),
        "result:00000000-0000-0000-0000-000000000001:12"
    );
    assert_eq!(summarize(result), None);
    assert_ne!(
        write_event_key(EventOrigin::TurnSettlementHold { task: TaskId(1) }),
        write_event_key(hold)
    );
}

fn reap(ledger: &mut Ledger, evidence: Vec<Result<NewObservation, CoordinatorError>>, now: u64) -> u32 {
    let command = CoordinatorCommand::ReapStaleHostConnections { evidence };
    match ledger.execute(Caller::Bootstrap, command, now).unwrap() {
        CommandOutcome::StaleHostConnectionsReaped { count } => count,
        other => panic!("{other:?}"),
    }
}

#[test]
fn stale_connections_are_reaped_and_counted() {
    let mut ledger = network();
    give(
        &mut ledger,
        SUPERVISOR,
        CoordinatorCommand::BindHostConnection {
            instance_id: "terminal".to_owned(),
            connection: NewConnection {
                id: HostConnectionId(31),
                capability: 4,
                lease_seconds: 40,
                instance: 6,
            },
        },
    );
    give(&mut ledger, SUPERVISOR, creation(1, Vec::new()));
    start(&mut ledger, 1);
    assert_eq!(reap(&mut ledger, Vec::new(), NOW), 0);
    let late = NOW + 30_000_000;
    assert_eq!(ledger.stale_connections(late).len(), 1);
    let later = NOW + 40_000_000;
    let listed: Vec<HostConnectionId> =
        ledger.stale_connections(later).iter().map(|connection| connection.id).collect();
    assert_eq!(listed, [HostConnectionId(30), HostConnectionId(31)]);
    assert_eq!(reap(&mut ledger, vec![Ok(observation(150, false))], later), 2);
    assert!(ledger.stale_connections(later).is_empty());
    assert!(ledger.connections.iter().all(|row| row.status == ConnectionStatus::Expired));
    assert_eq!(state_of(&ledger, 1), TaskState::Failed);
    assert_eq!(ledger.active_holds()[0].reason, HoldReason::WorkerHostFailed);
    assert_eq!(reap(&mut ledger, Vec::new(), later), 0);
}

#[test]
fn only_the_bootstrap_reaps() {
    let mut ledger = network();
    let error = refused(
        &mut ledger,
        SUPERVISOR,
        CoordinatorCommand::ReapStaleHostConnections { evidence: Vec::new() },
    );
    assert_eq!(error.category, ErrorCategory::Forbidden);
}

#[test]
fn a_lost_delivery_is_in_doubt() {
    let mut ledger = network();
    give(&mut ledger, SUPERVISOR, creation(1, Vec::new()));
    dispatch(&mut ledger, 1);
    assert_eq!(reap(&mut ledger, Vec::new(), NOW + 30_000_000), 1);
    assert_eq!(state_of(&ledger, 1), TaskState::DeliveryUnknown);
}

#[test]
fn recorded_snapshots_are_judged() {
    let mut ledger = network();
    give(&mut ledger, SUPERVISOR, creation(1, Vec::new()));
    let question = ledger.binding_question(TaskId(1), SessionReusePolicy::Fresh).unwrap();
    assert_eq!(question.candidate.adapter.lifecycle, AdapterLifecycle::Idle);
    let snapshot = AdapterRow {
        lifecycle: AdapterLifecycle::Working,
        session: Some(6),
        thread: None,
        active_turn: Some(7),
        steerable: true,
        queued_inputs: Some(2),
        model: None,
        health: NativeSessionHealth::ContextPressure,
        context_tokens: Some(70),
        context_window: Some(100),
        context_percent: Some(5),
        compactions: Some(1),
    };
    let report = |percent_in_range| CoordinatorCommand::RecordAdapterSnapshot {
        state: ReportedState { snapshot, percent_in_range },
    };
    let error = refused(&mut ledger, HOST, report(false));
    assert_eq!(error.message, "context_percent must be between zero and one hundred");
    give(&mut ledger, HOST, report(true));
    let question = ledger.binding_question(TaskId(1), SessionReusePolicy::Fresh).unwrap();
    assert_eq!(question.candidate.adapter, snapshot);
    dispatch(&mut ledger, 1);
    assert_eq!(ledger.bindings[0].adapter, snapshot);
}

#[test]
fn replies_name_their_question() {
    let mut ledger = network();
    give(&mut ledger, SUPERVISOR, creation(1, Vec::new()));
    start(&mut ledger, 1);
    let error = refused(
        &mut ledger,
        SUPERVISOR,
        CoordinatorCommand::SendMessage {
            request_key: None,
            payload: 0,
            message: NewMessage {
                id: MessageId(77),
                task: Some(TaskId(1)),
                to: 2,
                kind: MessageKind::Reply,
                reply_to: None,
                delivery: DeliveryIntent::FollowUp,
                body: 11,
                text: 12,
            },
            attachments: Vec::new(),
        },
    );
    assert_eq!(error.category, ErrorCategory::InvalidInput);
    assert_eq!(error.message, "a Reply names its Question");
}

#[test]
fn digests_go_under_their_own_number() {
    let mut ledger = network();
    let mut names = NameTable::new();
    names.intern("other");
    let digest = names.intern(DIGEST);
    let note = names.intern("n");
    assert_eq!(names.name(digest), Some(DIGEST));
    let command = CoordinatorCommand::ApproveTask {
        task_id: TaskId(1),
        result_revision: 1,
        observation_digest: DIGEST.to_owned(),
        digest,
        drift: None,
    };
    let error = ledger.submit(&names, SUPERVISOR, command, NOW).unwrap_err();
    assert_eq!(error.category, ErrorCategory::Conflict);
    let clearance = |digest, note| CoordinatorCommand::ClearWorktreeHold {
        task_id: TaskId(1),
        observation_digest: DIGEST.to_owned(),
        digest,
        audit_note: "n".to_owned(),
        note,
        drift: None,
    };
    let error = ledger.submit(&names, SUPERVISOR, clearance(0, note), NOW).unwrap_err();
    assert_eq!(error.message, "command text is not interned");
    let error = ledger.submit(&names, SUPERVISOR, clearance(digest, 0), NOW).unwrap_err();
    assert_eq!(error.message, "command text is not interned");
    let late = ledger.submit(&names, SUPERVISOR, CoordinatorCommand::DeactivateWorkspace, u64::MAX);
    assert_eq!(late.unwrap_err().message, "instant is out of range");
    let error = ledger.submit(&names, SUPERVISOR, clearance(digest, note), NOW).unwrap_err();
    assert_ne!(error.message, "command text is not interned");
}

//! The one boundary through which commands come: who may give which, and what each does.
use vstd::prelude::*;

use crate::contract::{HarnessTier, ObservationCheckpoint, SupervisorEventDeliveryState, TaskState};
use crate::error::{outcome, refusal, refuse, CoordinatorError, ErrorCategory, Refusal};
use crate::identity::{
    AttachmentId, HarnessSessionId, HostConnectionId, MessageId, SupervisorEventId,
    TaskGraphWatchId, TaskId,
};
use crate::ledger::attention::{
    acknowledge_events, reconcile_event, watch_graph, SupervisorEventResolution,
};
use crate::ledger::connections::{
    authenticate, authenticate_host, bind_connection, disconnect_connection, prepare_reconnect,
    outcomes, reap_all, renew_connection, NewConnection,
};
use crate::ledger::create::{
    admit_attachment, create_task, DeclaredDependency, KeyedRequest, NewTask,
};
use crate::ledger::dispatch::{
    claim_next, dispatch_task, optional_refusal, ClaimOutcome, DispatchFacts,
};
use crate::ledger::events::{
    accept_event, claim_event, mark_event_unknown, record_presentation, release_event, Acceptance,
    SupervisorPresentationPhase,
};
use crate::ledger::evidence::{concludes, observe_repository, NewObservation};
use crate::ledger::hosts::{
    adapter_snapshot, given, given_text, host_compatibility, host_ready, optional_view,
    supervisor_binding, supervisor_disconnected, HarnessCompatibilityEvidenceV1, NativeFindings,
    ReportedState,
};
use crate::ledger::messages::{accept_delivery, complete_task, send_message, NewMessage, NewResult};
use crate::ledger::queries::mark_inbox_read;
use crate::ledger::reconcile::{
    clear_worktree_hold, mark_delivery_unknown, resolve_delivery_unknown,
    DeliveryUnknownResolution,
};
use crate::ledger::sessions::{
    abort_worker_start, register_supervisor, rotate_session, start_worker, NewHarness,
};
use crate::ledger::settlement::{
    approve_task, cancel_task, record_cancellation_completed, record_turn_completed,
};
use crate::ledger::shutdown::{deactivate, host_event, host_failed, host_stopped, stop_worker};
use crate::ledger::steps::plain;
use crate::ledger::{Ledger, Model};
use crate::rows::{
    AttachmentRow, AuthenticatedActor, EventRow, HarnessKey, KeyedOutcome, TextKey, Wording,
};
use crate::text::optional_text;

verus! {

/// State-changing operations. What the outside world has to say to an operation, the state of a
/// repository, a lock, new identities, the numbers of interned texts, comes with it.
#[derive(Debug)]
#[allow(inconsistent_fields)]
pub enum CoordinatorCommand {
    /// Conservatively settle every stale Host connection, with what was captured for each.
    ReapStaleHostConnections {
        evidence: Vec<Result<NewObservation, CoordinatorError>>,
    },
    /// Atomically reserve one managed Supervisor pane reopen attempt.
    PrepareSupervisorReconnect,
    /// Register the sole Supervisor and create its live Session.
    RegisterSupervisor {
        supervisor: NewHarness,
    },
    /// Bind a new expiring Host connection and fence the previous generation.
    BindHostConnection {
        instance_id: String,
        connection: NewConnection,
    },
    /// Extend the current Host connection's presence lease.
    RenewHostConnection,
    /// Close the current Host connection without ending its durable Session.
    DisconnectHostConnection {
        diagnostic: Option<String>,
        key: Option<TextKey>,
    },
    /// Index a file that was copied into immutable Coordinator-owned storage.
    AdmitAttachment {
        attachment: AttachmentRow,
        media_type: String,
        original_name: String,
    },
    /// Mark admitted inbox Messages as observed by their recipient.
    MarkInboxRead {
        message_ids: Vec<MessageId>,
    },
    /// Create or reactivate an explicit Worker Harness.
    StartWorker {
        worker: NewHarness,
        profile: TextKey,
        issued: bool,
    },
    /// Fail a Worker Session whose pane could not be opened.
    AbortWorkerStart {
        worker_id: HarnessKey,
        diagnostic: String,
    },
    /// Create a bounded Task and its root Message atomically.
    CreateTask {
        request_key: Option<TextKey>,
        payload: TextKey,
        task: NewTask,
        depends_on: Vec<DeclaredDependency>,
        attachments: Vec<AttachmentId>,
    },
    /// Begin delivery of the queued root Message.
    DispatchTask {
        task_id: TaskId,
        facts: DispatchFacts,
    },
    /// Claim the Worker's oldest eligible queued Task.
    ClaimNextTask {
        facts: DispatchFacts,
    },
    /// Rotate an idle Worker to a fresh Session.
    RotateWorkerSession {
        session: HarnessSessionId,
        capability: TextKey,
    },
    /// Admit a routed Question, Reply, Correction, or Notification.
    SendMessage {
        request_key: Option<TextKey>,
        payload: TextKey,
        message: NewMessage,
        attachments: Vec<AttachmentId>,
    },
    /// Record native acceptance reported by the destination Host.
    AcceptDelivery {
        message_id: MessageId,
        native_correlation: String,
        correlation: TextKey,
    },
    /// Admit the assigned Worker's Result for its current native turn.
    CompleteTask {
        native_turn_id: String,
        result: NewResult,
        attachments: Vec<AttachmentId>,
        verification: Vec<AttachmentId>,
    },
    /// Record terminal native-turn evidence after Result admission.
    RecordTurnCompleted {
        task_id: TaskId,
        turn: TextKey,
        succeeded: bool,
        captured: Result<NewObservation, CoordinatorError>,
        message_id: MessageId,
    },
    /// Persist immutable Git evidence for one Task checkpoint.
    CaptureRepositoryObservation {
        task_id: TaskId,
        checkpoint: ObservationCheckpoint,
        captured: Result<NewObservation, CoordinatorError>,
    },
    /// Accept the current reviewable Result against exact repository evidence.
    ApproveTask {
        task_id: TaskId,
        result_revision: u32,
        observation_digest: String,
        digest: TextKey,
        drift: Option<CoordinatorError>,
    },
    /// Request cancellation, or cancel immediately while still queued.
    CancelTask {
        task_id: TaskId,
    },
    /// Confirm that the assigned provider settled a cancellation request.
    RecordCancellationCompleted {
        task_id: TaskId,
        succeeded: bool,
        captured: Result<NewObservation, CoordinatorError>,
    },
    /// Record that provider acceptance cannot be proven either way.
    MarkDeliveryUnknown {
        message_id: MessageId,
        diagnostic: String,
        key: TextKey,
    },
    /// Reconcile an uncertain dispatch against current repository evidence.
    ResolveDeliveryUnknown {
        task_id: TaskId,
        resolution: DeliveryUnknownResolution,
        observation_digest: String,
        digest: TextKey,
        audit_note: String,
        note: TextKey,
        drift: Option<CoordinatorError>,
    },
    /// Clear a reconciled Worktree Hold without modifying repository files.
    ClearWorktreeHold {
        task_id: TaskId,
        observation_digest: String,
        digest: TextKey,
        audit_note: String,
        note: TextKey,
        drift: Option<CoordinatorError>,
    },
    /// Request a Worker Host and provider process to stop.
    StopWorker {
        worker_id: HarnessKey,
    },
    /// End the idle Supervisor after all Workers and repository guards settle.
    DeactivateWorkspace,
    /// Confirm Worker Host process shutdown.
    RecordHostStopped {
        clean: bool,
    },
    /// Record Worker Host failure and conservatively settle active work.
    RecordHostFailed {
        diagnostic: String,
        key: TextKey,
        captured: Result<NewObservation, CoordinatorError>,
    },
    /// Mark a Worker online once its pane Host and native Adapter are ready.
    RecordHostReady,
    /// Retain executable, version, native identity, model, and handshake evidence.
    RecordHostCompatibility {
        resolved_executable: String,
        observed_version: String,
        found: NativeFindings,
        evidence: HarnessCompatibilityEvidenceV1,
        size: usize,
    },
    /// Register the native conversation bound by the managed Supervisor Host.
    RecordSupervisorBinding {
        native_session: Option<TextKey>,
        native_thread: Option<TextKey>,
    },
    /// Mark the managed Supervisor transport offline without ending durable state.
    RecordSupervisorDisconnected {
        diagnostic: Option<String>,
        key: Option<TextKey>,
    },
    /// Persist the latest provider-neutral native health evidence.
    RecordAdapterSnapshot {
        state: ReportedState,
    },
    /// Claim the oldest retry-safe durable Supervisor-attention event.
    ClaimNextSupervisorEvent,
    /// Record provider-native acceptance separately from model processing.
    AcceptSupervisorEvent {
        event_id: SupervisorEventId,
        native_correlation: String,
        evidence: String,
        said: Acceptance,
    },
    /// Append evidence that an accepted event entered its visible turn.
    RecordSupervisorEventPresentation {
        event_id: SupervisorEventId,
        phase: SupervisorPresentationPhase,
        turn: Option<TextKey>,
        evidence: String,
        key: TextKey,
    },
    /// Mark an attempted native Supervisor injection as ambiguous.
    MarkSupervisorEventUnknown {
        event_id: SupervisorEventId,
        diagnostic: String,
        key: TextKey,
    },
    /// Return a definitively unwritten Supervisor injection to the FIFO.
    ReleaseSupervisorEvent {
        event_id: SupervisorEventId,
        diagnostic: String,
        key: TextKey,
    },
    /// Explicitly acknowledge one or more Inbox-backed events as processed.
    AcknowledgeSupervisorEvents {
        event_ids: Vec<SupervisorEventId>,
    },
    /// Reconcile an event whose native injection is ambiguous.
    ReconcileSupervisorEvent {
        event_id: SupervisorEventId,
        resolution: SupervisorEventResolution,
        audit_note: String,
        note: TextKey,
    },
    /// Register a durable completion watch for an explicit Task-root set.
    WatchTaskGraph {
        watch_id: TaskGraphWatchId,
        root_task_ids: Vec<TaskId>,
        request_key: Option<TextKey>,
    },
    /// Persist one monotonic pane-resident Host event for reconnect replay.
    RecordHostEvent {
        sequence: u64,
        content: TextKey,
        size: usize,
    },
}

/// Successful command outcome.
#[derive(Debug, Clone, Copy, PartialEq, Eq, Structural)]
#[allow(inconsistent_fields)]
pub enum CommandOutcome {
    /// A new generation-fenced Host connection was bound.
    HostConnectionBound { connection_id: HostConnectionId, generation: u64 },
    /// The current Host connection lease was extended.
    HostConnectionRenewed { expires_at: u64 },
    /// The Host connection was disconnected or expired.
    HostConnectionDisconnected,
    /// Number of stale Host connections settled.
    StaleHostConnectionsReaped { count: u32 },
    /// Whether the durable Supervisor reopen claim was acquired.
    SupervisorReconnectPrepared { claimed: bool },
    /// File was copied, hashed, and indexed.
    AttachmentAdmitted { attachment: AttachmentRow },
    /// Inbox read markers were persisted.
    InboxMarkedRead { count: u32 },
    /// The Supervisor is registered.
    SupervisorRegistered { session_id: HarnessSessionId },
    /// The Worker has a starting Session.
    WorkerStarted { session_id: HarnessSessionId },
    /// Task and root Message were durably created.
    TaskCreated { task_id: TaskId, message_id: MessageId },
    /// Root Message delivery began.
    TaskDispatching { task_id: TaskId, message_id: MessageId },
    /// Worker currently has no eligible queued Task.
    NoTaskAvailable,
    /// The Worker Host must rotate before it retries the Task.
    SessionRotationRequired { task_id: TaskId },
    /// Required reuse needs one provider-native safe compaction before retry.
    SessionCompactionRequired { task_id: TaskId },
    /// A fresh Worker Session replaced the former one.
    WorkerSessionRotated { session_id: HarnessSessionId },
    /// Public Bus Message was durably admitted.
    MessageCreated { message_id: MessageId },
    /// A native delivery was accepted and its effects applied.
    DeliveryAccepted { message_id: MessageId },
    /// A Result candidate was durably admitted.
    ResultRecorded { task_id: TaskId, revision: u32 },
    /// A native turn ended and the Task state was updated.
    TurnCompleted { task_id: TaskId, state: TaskState },
    /// Repository evidence was durably indexed.
    ObservationRecorded { task_id: TaskId, digest: TextKey },
    /// Supervisor approved the current Result revision.
    TaskApproved { task_id: TaskId },
    /// Cancellation state was durably updated.
    TaskCancellationUpdated { task_id: TaskId, state: TaskState },
    /// Ambiguous delivery was recorded or explicitly reconciled.
    DeliveryUnknownUpdated { task_id: TaskId, state: TaskState },
    /// A digest-confirmed Worktree Hold was cleared.
    HoldCleared { task_id: TaskId },
    /// Worker Session was asked to stop.
    WorkerStopping { worker_id: HarnessKey },
    /// Idle workspace Sessions ended without discarding durable state.
    WorkspaceDeactivated,
    /// Worker Host shutdown was durably settled.
    HostStopped { clean: bool },
    /// Worker Host and native Adapter are ready for dispatch.
    HostReady,
    /// Native compatibility evidence was retained before readiness.
    HostCompatibilityRecorded,
    /// Managed Supervisor native identity was durably bound.
    SupervisorBound,
    /// Managed Supervisor transport is offline; durable attention remains pending.
    SupervisorDisconnected,
    /// Latest native health evidence was retained.
    AdapterSnapshotRecorded,
    /// Oldest retry-safe event was reserved for native injection.
    SupervisorEventClaimed { event: Option<EventRow> },
    /// Supervisor event delivery state was updated.
    SupervisorEventUpdated { event_id: SupervisorEventId, state: SupervisorEventDeliveryState },
    /// Durable root Task watch was registered.
    TaskGraphWatchRegistered { watch_id: TaskGraphWatchId },
    /// Monotonic Host event was persisted or replayed idempotently.
    HostEventRecorded { sequence: u64 },
}

/// Who a command comes from, by the number of the stored capability; none where it is unknown.
#[derive(Debug, Clone, Copy, PartialEq, Eq, Structural)]
pub enum Caller {
    Bootstrap,
    Session { capability: Option<TextKey> },
    Host { capability: Option<TextKey> },
}

/// Who of the authenticated may give a command.
#[derive(Debug, Clone, Copy, PartialEq, Eq, Structural)]
pub enum Access {
    Any,
    Supervisor,
    Worker,
    Closed,
}

// ---------------------------------------------------------------------------------------------
// Authorization
// ---------------------------------------------------------------------------------------------

/// Commands that need no authentication.
pub open spec fn bootstrap_access(command: CoordinatorCommand) -> bool {
    command is ReapStaleHostConnections || command is PrepareSupervisorReconnect || command
        is RegisterSupervisor
}

/// Commands of a Session capability.
pub open spec fn session_access(command: CoordinatorCommand) -> Access {
    match command {
        CoordinatorCommand::ReapStaleHostConnections { .. } => Access::Closed,
        CoordinatorCommand::PrepareSupervisorReconnect => Access::Closed,
        CoordinatorCommand::RegisterSupervisor { .. } => Access::Closed,
        CoordinatorCommand::BindHostConnection { .. } => Access::Any,
        CoordinatorCommand::RenewHostConnection => Access::Closed,
        CoordinatorCommand::DisconnectHostConnection { .. } => Access::Closed,
        CoordinatorCommand::AdmitAttachment { .. } => Access::Any,
        CoordinatorCommand::MarkInboxRead { .. } => Access::Any,
        CoordinatorCommand::StartWorker { .. } => Access::Supervisor,
        CoordinatorCommand::AbortWorkerStart { .. } => Access::Supervisor,
        CoordinatorCommand::CreateTask { .. } => Access::Supervisor,
        CoordinatorCommand::DispatchTask { .. } => Access::Supervisor,
        CoordinatorCommand::ClaimNextTask { .. } => Access::Worker,
        CoordinatorCommand::RotateWorkerSession { .. } => Access::Any,
        CoordinatorCommand::SendMessage { .. } => Access::Any,
        CoordinatorCommand::AcceptDelivery { .. } => Access::Any,
        CoordinatorCommand::CompleteTask { .. } => Access::Any,
        CoordinatorCommand::RecordTurnCompleted { .. } => Access::Any,
        CoordinatorCommand::CaptureRepositoryObservation { .. } => Access::Any,
        CoordinatorCommand::ApproveTask { .. } => Access::Supervisor,
        CoordinatorCommand::CancelTask { .. } => Access::Supervisor,
        CoordinatorCommand::RecordCancellationCompleted { .. } => Access::Any,
        CoordinatorCommand::MarkDeliveryUnknown { .. } => Access::Any,
        CoordinatorCommand::ResolveDeliveryUnknown { .. } => Access::Supervisor,
        CoordinatorCommand::ClearWorktreeHold { .. } => Access::Supervisor,
        CoordinatorCommand::StopWorker { .. } => Access::Supervisor,
        CoordinatorCommand::DeactivateWorkspace => Access::Supervisor,
        CoordinatorCommand::RecordHostStopped { .. } => Access::Any,
        CoordinatorCommand::RecordHostFailed { .. } => Access::Any,
        CoordinatorCommand::RecordHostReady => Access::Any,
        CoordinatorCommand::RecordHostCompatibility { .. } => Access::Any,
        CoordinatorCommand::RecordSupervisorBinding { .. } => Access::Any,
        CoordinatorCommand::RecordSupervisorDisconnected { .. } => Access::Any,
        CoordinatorCommand::RecordAdapterSnapshot { .. } => Access::Any,
        CoordinatorCommand::ClaimNextSupervisorEvent => Access::Supervisor,
        CoordinatorCommand::AcceptSupervisorEvent { .. } => Access::Supervisor,
        CoordinatorCommand::RecordSupervisorEventPresentation { .. } => Access::Closed,
        CoordinatorCommand::MarkSupervisorEventUnknown { .. } => Access::Supervisor,
        CoordinatorCommand::ReleaseSupervisorEvent { .. } => Access::Supervisor,
        CoordinatorCommand::AcknowledgeSupervisorEvents { .. } => Access::Supervisor,
        CoordinatorCommand::ReconcileSupervisorEvent { .. } => Access::Supervisor,
        CoordinatorCommand::WatchTaskGraph { .. } => Access::Supervisor,
        CoordinatorCommand::RecordHostEvent { .. } => Access::Any,
    }
}

/// Commands of a Host connection capability.
pub open spec fn host_access(command: CoordinatorCommand) -> Access {
    match command {
        CoordinatorCommand::ReapStaleHostConnections { .. } => Access::Closed,
        CoordinatorCommand::PrepareSupervisorReconnect => Access::Closed,
        CoordinatorCommand::RegisterSupervisor { .. } => Access::Closed,
        CoordinatorCommand::BindHostConnection { .. } => Access::Closed,
        CoordinatorCommand::RenewHostConnection => Access::Any,
        CoordinatorCommand::DisconnectHostConnection { .. } => Access::Any,
        CoordinatorCommand::AdmitAttachment { .. } => Access::Any,
        CoordinatorCommand::MarkInboxRead { .. } => Access::Any,
        CoordinatorCommand::StartWorker { .. } => Access::Supervisor,
        CoordinatorCommand::AbortWorkerStart { .. } => Access::Closed,
        CoordinatorCommand::CreateTask { .. } => Access::Supervisor,
        CoordinatorCommand::DispatchTask { .. } => Access::Supervisor,
        CoordinatorCommand::ClaimNextTask { .. } => Access::Any,
        CoordinatorCommand::RotateWorkerSession { .. } => Access::Any,
        CoordinatorCommand::SendMessage { .. } => Access::Any,
        CoordinatorCommand::AcceptDelivery { .. } => Access::Any,
        CoordinatorCommand::CompleteTask { .. } => Access::Any,
        CoordinatorCommand::RecordTurnCompleted { .. } => Access::Any,
        CoordinatorCommand::CaptureRepositoryObservation { .. } => Access::Any,
        CoordinatorCommand::ApproveTask { .. } => Access::Supervisor,
        CoordinatorCommand::CancelTask { .. } => Access::Supervisor,
        CoordinatorCommand::RecordCancellationCompleted { .. } => Access::Any,
        CoordinatorCommand::MarkDeliveryUnknown { .. } => Access::Any,
        CoordinatorCommand::ResolveDeliveryUnknown { .. } => Access::Supervisor,
        CoordinatorCommand::ClearWorktreeHold { .. } => Access::Supervisor,
        CoordinatorCommand::StopWorker { .. } => Access::Supervisor,
        CoordinatorCommand::DeactivateWorkspace => Access::Closed,
        CoordinatorCommand::RecordHostStopped { .. } => Access::Any,
        CoordinatorCommand::RecordHostFailed { .. } => Access::Any,
        CoordinatorCommand::RecordHostReady => Access::Any,
        CoordinatorCommand::RecordHostCompatibility { .. } => Access::Any,
        CoordinatorCommand::RecordSupervisorBinding { .. } => Access::Any,
        CoordinatorCommand::RecordSupervisorDisconnected { .. } => Access::Any,
        CoordinatorCommand::RecordAdapterSnapshot { .. } => Access::Any,
        CoordinatorCommand::ClaimNextSupervisorEvent => Access::Supervisor,
        CoordinatorCommand::AcceptSupervisorEvent { .. } => Access::Supervisor,
        CoordinatorCommand::RecordSupervisorEventPresentation { .. } => Access::Supervisor,
        CoordinatorCommand::MarkSupervisorEventUnknown { .. } => Access::Supervisor,
        CoordinatorCommand::ReleaseSupervisorEvent { .. } => Access::Supervisor,
        CoordinatorCommand::AcknowledgeSupervisorEvents { .. } => Access::Supervisor,
        CoordinatorCommand::ReconcileSupervisorEvent { .. } => Access::Supervisor,
        CoordinatorCommand::WatchTaskGraph { .. } => Access::Supervisor,
        CoordinatorCommand::RecordHostEvent { .. } => Access::Any,
    }
}

pub open spec fn supervisor_required() -> Refusal {
    refusal(ErrorCategory::Forbidden, "Supervisor authority is required"@)
}

pub open spec fn not_permitted() -> Refusal {
    refusal(ErrorCategory::Forbidden, "command is not permitted for this actor"@)
}

pub open spec fn not_permitted_to_host() -> Refusal {
    refusal(
        ErrorCategory::Forbidden,
        "command is not permitted for a managed Host connection"@,
    )
}

/// Who a Session capability belongs to; an unknown one belongs to nobody.
pub open spec fn session_caller(m: Model, capability: Option<TextKey>) -> Result<
    AuthenticatedActor,
    Refusal,
> {
    match capability {
        Some(key) => authenticate(m, key),
        None => Err(
            refusal(
                ErrorCategory::Unauthenticated,
                "Session capability is invalid or expired"@,
            ),
        ),
    }
}

/// Who a Host capability belongs to; an unknown one belongs to nobody.
pub open spec fn host_caller(m: Model, capability: Option<TextKey>, now: u64) -> Result<
    AuthenticatedActor,
    Refusal,
> {
    match capability {
        Some(key) => authenticate_host(m, key, now),
        None => Err(
            refusal(
                ErrorCategory::Unauthenticated,
                "Host connection capability is invalid, expired, or superseded"@,
            ),
        ),
    }
}

/// Whether an authenticated actor may give a command.
pub open spec fn admits(access: Access, actor: AuthenticatedActor) -> Result<
    AuthenticatedActor,
    Refusal,
> {
    match access {
        Access::Any => Ok(actor),
        Access::Supervisor => if actor.tier == HarnessTier::Supervisor {
            Ok(actor)
        } else {
            Err(supervisor_required())
        },
        Access::Worker => if actor.tier == HarnessTier::Worker {
            Ok(actor)
        } else {
            Err(
                refusal(ErrorCategory::Forbidden, "only a Worker Host may claim queued work"@),
            )
        },
        Access::Closed => Err(not_permitted_to_host()),
    }
}

/// Who gives a command, where it may be given; bootstrap commands come from nobody.
pub open spec fn authorize(m: Model, caller: Caller, command: CoordinatorCommand, now: u64) -> Result<
    Option<AuthenticatedActor>,
    Refusal,
> {
    match caller {
        Caller::Bootstrap => if bootstrap_access(command) {
            Ok(None)
        } else {
            Err(not_permitted())
        },
        Caller::Session { capability } => if session_access(command) == Access::Closed {
            Err(not_permitted())
        } else {
            match session_caller(m, capability) {
                Err(e) => Err(e),
                Ok(actor) => match admits(session_access(command), actor) {
                    Err(e) => Err(e),
                    Ok(actor) => Ok(Some(actor)),
                },
            }
        },
        Caller::Host { capability } => match host_caller(m, capability, now) {
            Err(e) => Err(e),
            Ok(actor) => match admits(host_access(command), actor) {
                Err(e) => Err(e),
                Ok(actor) => Ok(Some(actor)),
            },
        },
    }
}

impl CoordinatorCommand {
    fn is_bootstrap(&self) -> (r: bool)
        ensures
            r == bootstrap_access(*self),
    {
        match self {
            CoordinatorCommand::ReapStaleHostConnections { .. }
            | CoordinatorCommand::PrepareSupervisorReconnect
            | CoordinatorCommand::RegisterSupervisor { .. } => true,
            _ => false,
        }
    }

    /// Who may give the command with a Session capability.
    pub fn session_access(&self) -> (r: Access)
        ensures
            r == session_access(*self),
    {
        match self {
            CoordinatorCommand::ReapStaleHostConnections { .. } => Access::Closed,
            CoordinatorCommand::PrepareSupervisorReconnect => Access::Closed,
            CoordinatorCommand::RegisterSupervisor { .. } => Access::Closed,
            CoordinatorCommand::BindHostConnection { .. } => Access::Any,
            CoordinatorCommand::RenewHostConnection => Access::Closed,
            CoordinatorCommand::DisconnectHostConnection { .. } => Access::Closed,
            CoordinatorCommand::AdmitAttachment { .. } => Access::Any,
            CoordinatorCommand::MarkInboxRead { .. } => Access::Any,
            CoordinatorCommand::StartWorker { .. } => Access::Supervisor,
            CoordinatorCommand::AbortWorkerStart { .. } => Access::Supervisor,
            CoordinatorCommand::CreateTask { .. } => Access::Supervisor,
            CoordinatorCommand::DispatchTask { .. } => Access::Supervisor,
            CoordinatorCommand::ClaimNextTask { .. } => Access::Worker,
            CoordinatorCommand::RotateWorkerSession { .. } => Access::Any,
            CoordinatorCommand::SendMessage { .. } => Access::Any,
            CoordinatorCommand::AcceptDelivery { .. } => Access::Any,
            CoordinatorCommand::CompleteTask { .. } => Access::Any,
            CoordinatorCommand::RecordTurnCompleted { .. } => Access::Any,
            CoordinatorCommand::CaptureRepositoryObservation { .. } => Access::Any,
            CoordinatorCommand::ApproveTask { .. } => Access::Supervisor,
            CoordinatorCommand::CancelTask { .. } => Access::Supervisor,
            CoordinatorCommand::RecordCancellationCompleted { .. } => Access::Any,
            CoordinatorCommand::MarkDeliveryUnknown { .. } => Access::Any,
            CoordinatorCommand::ResolveDeliveryUnknown { .. } => Access::Supervisor,
            CoordinatorCommand::ClearWorktreeHold { .. } => Access::Supervisor,
            CoordinatorCommand::StopWorker { .. } => Access::Supervisor,
            CoordinatorCommand::DeactivateWorkspace => Access::Supervisor,
            CoordinatorCommand::RecordHostStopped { .. } => Access::Any,
            CoordinatorCommand::RecordHostFailed { .. } => Access::Any,
            CoordinatorCommand::RecordHostReady => Access::Any,
            CoordinatorCommand::RecordHostCompatibility { .. } => Access::Any,
            CoordinatorCommand::RecordSupervisorBinding { .. } => Access::Any,
            CoordinatorCommand::RecordSupervisorDisconnected { .. } => Access::Any,
            CoordinatorCommand::RecordAdapterSnapshot { .. } => Access::Any,
            CoordinatorCommand::ClaimNextSupervisorEvent => Access::Supervisor,
            CoordinatorCommand::AcceptSupervisorEvent { .. } => Access::Supervisor,
            CoordinatorCommand::RecordSupervisorEventPresentation { .. } => Access::Closed,
            CoordinatorCommand::MarkSupervisorEventUnknown { .. } => Access::Supervisor,
            CoordinatorCommand::ReleaseSupervisorEvent { .. } => Access::Supervisor,
            CoordinatorCommand::AcknowledgeSupervisorEvents { .. } => Access::Supervisor,
            CoordinatorCommand::ReconcileSupervisorEvent { .. } => Access::Supervisor,
            CoordinatorCommand::WatchTaskGraph { .. } => Access::Supervisor,
            CoordinatorCommand::RecordHostEvent { .. } => Access::Any,
        }
    }

    /// Who may give the command with a Host connection capability.
    pub fn host_access(&self) -> (r: Access)
        ensures
            r == host_access(*self),
    {
        match self {
            CoordinatorCommand::ReapStaleHostConnections { .. } => Access::Closed,
            CoordinatorCommand::PrepareSupervisorReconnect => Access::Closed,
            CoordinatorCommand::RegisterSupervisor { .. } => Access::Closed,
            CoordinatorCommand::BindHostConnection { .. } => Access::Closed,
            CoordinatorCommand::RenewHostConnection => Access::Any,
            CoordinatorCommand::DisconnectHostConnection { .. } => Access::Any,
            CoordinatorCommand::AdmitAttachment { .. } => Access::Any,
            CoordinatorCommand::MarkInboxRead { .. } => Access::Any,
            CoordinatorCommand::StartWorker { .. } => Access::Supervisor,
            CoordinatorCommand::AbortWorkerStart { .. } => Access::Closed,
            CoordinatorCommand::CreateTask { .. } => Access::Supervisor,
            CoordinatorCommand::DispatchTask { .. } => Access::Supervisor,
            CoordinatorCommand::ClaimNextTask { .. } => Access::Any,
            CoordinatorCommand::RotateWorkerSession { .. } => Access::Any,
            CoordinatorCommand::SendMessage { .. } => Access::Any,
            CoordinatorCommand::AcceptDelivery { .. } => Access::Any,
            CoordinatorCommand::CompleteTask { .. } => Access::Any,
            CoordinatorCommand::RecordTurnCompleted { .. } => Access::Any,
            CoordinatorCommand::CaptureRepositoryObservation { .. } => Access::Any,
            CoordinatorCommand::ApproveTask { .. } => Access::Supervisor,
            CoordinatorCommand::CancelTask { .. } => Access::Supervisor,
            CoordinatorCommand::RecordCancellationCompleted { .. } => Access::Any,
            CoordinatorCommand::MarkDeliveryUnknown { .. } => Access::Any,
            CoordinatorCommand::ResolveDeliveryUnknown { .. } => Access::Supervisor,
            CoordinatorCommand::ClearWorktreeHold { .. } => Access::Supervisor,
            CoordinatorCommand::StopWorker { .. } => Access::Supervisor,
            CoordinatorCommand::DeactivateWorkspace => Access::Closed,
            CoordinatorCommand::RecordHostStopped { .. } => Access::Any,
            CoordinatorCommand::RecordHostFailed { .. } => Access::Any,
            CoordinatorCommand::RecordHostReady => Access::Any,
            CoordinatorCommand::RecordHostCompatibility { .. } => Access::Any,
            CoordinatorCommand::RecordSupervisorBinding { .. } => Access::Any,
            CoordinatorCommand::RecordSupervisorDisconnected { .. } => Access::Any,
            CoordinatorCommand::RecordAdapterSnapshot { .. } => Access::Any,
            CoordinatorCommand::ClaimNextSupervisorEvent => Access::Supervisor,
            CoordinatorCommand::AcceptSupervisorEvent { .. } => Access::Supervisor,
            CoordinatorCommand::RecordSupervisorEventPresentation { .. } => Access::Supervisor,
            CoordinatorCommand::MarkSupervisorEventUnknown { .. } => Access::Supervisor,
            CoordinatorCommand::ReleaseSupervisorEvent { .. } => Access::Supervisor,
            CoordinatorCommand::AcknowledgeSupervisorEvents { .. } => Access::Supervisor,
            CoordinatorCommand::ReconcileSupervisorEvent { .. } => Access::Supervisor,
            CoordinatorCommand::WatchTaskGraph { .. } => Access::Supervisor,
            CoordinatorCommand::RecordHostEvent { .. } => Access::Any,
        }
    }

}

/// Requires the Supervisor.
pub fn require_supervisor(actor: AuthenticatedActor) -> (r: Result<(), CoordinatorError>)
    ensures
        match r {
            Ok(_) => actor.tier == HarnessTier::Supervisor,
            Err(e) => actor.tier != HarnessTier::Supervisor && e@ == supervisor_required(),
        },
{
    if actor.tier == HarnessTier::Supervisor {
        Ok(())
    } else {
        Err(refuse(ErrorCategory::Forbidden, "Supervisor authority is required"))
    }
}

fn require_access(access: Access, actor: AuthenticatedActor) -> (r: Result<
    AuthenticatedActor,
    CoordinatorError,
>)
    ensures
        outcome(r) == admits(access, actor),
{
    match access {
        Access::Any => Ok(actor),
        Access::Supervisor => match require_supervisor(actor) {
            Ok(_) => Ok(actor),
            Err(e) => Err(e),
        },
        Access::Worker => if actor.tier == HarnessTier::Worker {
            Ok(actor)
        } else {
            Err(refuse(ErrorCategory::Forbidden, "only a Worker Host may claim queued work"))
        },
        Access::Closed => Err(
            refuse(
                ErrorCategory::Forbidden,
                "command is not permitted for a managed Host connection",
            ),
        ),
    }
}

impl Ledger {
    /// Finds out who a Session capability belongs to; an unknown one belongs to nobody.
    pub fn session_caller(&self, capability: Option<TextKey>) -> (r: Result<
        AuthenticatedActor,
        CoordinatorError,
    >)
        ensures
            outcome(r) == session_caller(self@, capability),
    {
        match capability {
            Some(key) => self.authenticate(key),
            None => Err(
                refuse(ErrorCategory::Unauthenticated, "Session capability is invalid or expired"),
            ),
        }
    }

    /// Finds out who a Host capability belongs to; an unknown one belongs to nobody.
    pub fn host_caller(&self, capability: Option<TextKey>, now: u64) -> (r: Result<
        AuthenticatedActor,
        CoordinatorError,
    >)
        ensures
            outcome(r) == host_caller(self@, capability, now),
    {
        match capability {
            Some(key) => self.authenticate_host(key, now),
            None => Err(
                refuse(
                    ErrorCategory::Unauthenticated,
                    "Host connection capability is invalid, expired, or superseded",
                ),
            ),
        }
    }

    /// Finds out who gives a command, and whether it may be given.
    pub fn authorize(&self, caller: Caller, command: &CoordinatorCommand, now: u64) -> (r: Result<
        Option<AuthenticatedActor>,
        CoordinatorError,
    >)
        ensures
            outcome(r) == authorize(self@, caller, *command, now),
    {
        match caller {
            Caller::Bootstrap => if command.is_bootstrap() {
                Ok(None)
            } else {
                Err(refuse(ErrorCategory::Forbidden, "command is not permitted for this actor"))
            },
            Caller::Session { capability } => {
                let access = command.session_access();
                if access == Access::Closed {
                    return Err(
                        refuse(ErrorCategory::Forbidden, "command is not permitted for this actor"),
                    );
                }
                match self.session_caller(capability) {
                    Err(e) => Err(e),
                    Ok(actor) => match require_access(access, actor) {
                        Err(e) => Err(e),
                        Ok(actor) => Ok(Some(actor)),
                    },
                }
            },
            Caller::Host { capability } => match self.host_caller(capability, now) {
                Err(e) => Err(e),
                Ok(actor) => match require_access(command.host_access(), actor) {
                    Err(e) => Err(e),
                    Ok(actor) => Ok(Some(actor)),
                },
            },
        }
    }
}

// ---------------------------------------------------------------------------------------------
// Execution
// ---------------------------------------------------------------------------------------------

/// The outcome of a command that leaves no trace where it refuses.
pub open spec fn done<T>(
    m: Model,
    r: Result<(Model, T), Refusal>,
    f: spec_fn(T) -> CommandOutcome,
) -> (Model, Result<CommandOutcome, Refusal>) {
    match r {
        Ok((next, value)) => (next, Ok(f(value))),
        Err(e) => (m, Err(e)),
    }
}

/// The outcome of a command that may leave a trace where it refuses.
pub open spec fn left<T>(said: (Model, Result<T, Refusal>), f: spec_fn(T) -> CommandOutcome) -> (
    Model,
    Result<CommandOutcome, Refusal>,
) {
    match said.1 {
        Ok(value) => (said.0, Ok(f(value))),
        Err(e) => (said.0, Err(e)),
    }
}

pub open spec fn keyed_outcome(made: KeyedOutcome) -> CommandOutcome {
    match made {
        KeyedOutcome::TaskCreated { task, message } => CommandOutcome::TaskCreated {
            task_id: task,
            message_id: message,
        },
        KeyedOutcome::MessageCreated { message } => CommandOutcome::MessageCreated {
            message_id: message,
        },
    }
}

fn answer_keyed(made: KeyedOutcome) -> (r: CommandOutcome)
    ensures
        r == keyed_outcome(made),
{
    match made {
        KeyedOutcome::TaskCreated { task, message } => CommandOutcome::TaskCreated {
            task_id: task,
            message_id: message,
        },
        KeyedOutcome::MessageCreated { message } => CommandOutcome::MessageCreated {
            message_id: message,
        },
    }
}

pub open spec fn claim_outcome(answer: ClaimOutcome) -> CommandOutcome {
    match answer {
        ClaimOutcome::Dispatching { task, message } => CommandOutcome::TaskDispatching {
            task_id: task,
            message_id: message,
        },
        ClaimOutcome::NoTaskAvailable => CommandOutcome::NoTaskAvailable,
        ClaimOutcome::RotationRequired { task } => CommandOutcome::SessionRotationRequired {
            task_id: task,
        },
        ClaimOutcome::CompactionRequired { task } => CommandOutcome::SessionCompactionRequired {
            task_id: task,
        },
    }
}

fn answer_claim(answer: ClaimOutcome) -> (r: CommandOutcome)
    ensures
        r == claim_outcome(answer),
{
    match answer {
        ClaimOutcome::Dispatching { task, message } => CommandOutcome::TaskDispatching {
            task_id: task,
            message_id: message,
        },
        ClaimOutcome::NoTaskAvailable => CommandOutcome::NoTaskAvailable,
        ClaimOutcome::RotationRequired { task } => CommandOutcome::SessionRotationRequired {
            task_id: task,
        },
        ClaimOutcome::CompactionRequired { task } => CommandOutcome::SessionCompactionRequired {
            task_id: task,
        },
    }
}

fn text_ref(text: &Option<String>) -> (r: Option<&str>)
    ensures
        optional_view(r) == optional_text(*text),
{
    match text {
        Some(t) => Some(t.as_str()),
        None => None,
    }
}

/// The digest of what was captured.
pub open spec fn observed_digest(captured: Result<NewObservation, CoordinatorError>) -> TextKey {
    match captured {
        Ok(o) => o.digest,
        Err(_) => 0,
    }
}

fn digest_of(captured: &Result<NewObservation, CoordinatorError>) -> (r: TextKey)
    ensures
        r == observed_digest(*captured),
{
    match captured {
        Ok(o) => o.digest,
        Err(_) => 0,
    }
}

/// What a bootstrap command does.
pub open spec fn perform_bootstrap(m: Model, command: CoordinatorCommand, now: u64) -> (
    Model,
    Result<CommandOutcome, Refusal>,
) {
    match command {
        CoordinatorCommand::ReapStaleHostConnections { evidence } => left(
            reap_all(m, outcomes(evidence@), now),
            |count: u32| CommandOutcome::StaleHostConnectionsReaped { count },
        ),
        CoordinatorCommand::PrepareSupervisorReconnect => (
            prepare_reconnect(m, now).0,
            Ok(
                CommandOutcome::SupervisorReconnectPrepared {
                    claimed: prepare_reconnect(m, now).1,
                },
            ),
        ),
        CoordinatorCommand::RegisterSupervisor { supervisor } => done(
            m,
            plain(register_supervisor(m, supervisor, now)),
            |_v: ()| CommandOutcome::SupervisorRegistered { session_id: supervisor.session },
        ),
        _ => (m, Err(not_permitted())),
    }
}

/// What a command of an authenticated actor does.
pub open spec fn perform(
    m: Model,
    actor: AuthenticatedActor,
    command: CoordinatorCommand,
    now: u64,
) -> (Model, Result<CommandOutcome, Refusal>) {
    match command {
        CoordinatorCommand::BindHostConnection { instance_id, connection } => done(
            m,
            bind_connection(m, actor, instance_id@, connection, now),
            |generation: u64| CommandOutcome::HostConnectionBound {
                connection_id: connection.id,
                generation,
            },
        ),
        CoordinatorCommand::RenewHostConnection => done(
            m,
            renew_connection(m, actor, now),
            |expires_at: u64| CommandOutcome::HostConnectionRenewed { expires_at },
        ),
        CoordinatorCommand::DisconnectHostConnection { diagnostic, key } => done(
            m,
            plain(disconnect_connection(m, actor, optional_text(diagnostic), key)),
            |_v: ()| CommandOutcome::HostConnectionDisconnected,
        ),
        CoordinatorCommand::AdmitAttachment { attachment, media_type, original_name } => done(
            m,
            plain(admit_attachment(m, attachment, media_type@, original_name@)),
            |_v: ()| CommandOutcome::AttachmentAdmitted { attachment },
        ),
        CoordinatorCommand::MarkInboxRead { message_ids } => done(
            m,
            mark_inbox_read(m, actor, message_ids@),
            |count: nat| CommandOutcome::InboxMarkedRead { count: count as u32 },
        ),
        CoordinatorCommand::StartWorker { worker, profile, issued } => done(
            m,
            start_worker(m, worker, profile, issued, now),
            |session_id: HarnessSessionId| CommandOutcome::WorkerStarted { session_id },
        ),
        CoordinatorCommand::AbortWorkerStart { worker_id, diagnostic } => left(
            abort_worker_start(m, worker_id, diagnostic@, now),
            |_v: ()| CommandOutcome::HostStopped { clean: false },
        ),
        CoordinatorCommand::CreateTask {
            request_key,
            payload,
            task,
            depends_on,
            attachments,
        } => done(
            m,
            create_task(
                m,
                KeyedRequest { actor: actor.id, creates_task: true, request_key, payload },
                task,
                depends_on@,
                attachments@,
            ),
            |made: KeyedOutcome| keyed_outcome(made),
        ),
        CoordinatorCommand::DispatchTask { task_id, facts } => left(
            dispatch_task(m, task_id, facts@),
            |message_id: MessageId| CommandOutcome::TaskDispatching { task_id, message_id },
        ),
        CoordinatorCommand::ClaimNextTask { facts } => left(
            claim_next(m, actor.id, actor.session, facts@),
            |answer: ClaimOutcome| claim_outcome(answer),
        ),
        CoordinatorCommand::RotateWorkerSession { session, capability } => done(
            m,
            plain(rotate_session(m, actor, session, capability, now)),
            |_v: ()| CommandOutcome::WorkerSessionRotated { session_id: session },
        ),
        CoordinatorCommand::SendMessage { request_key, payload, message, attachments } => done(
            m,
            send_message(
                m,
                actor,
                KeyedRequest { actor: actor.id, creates_task: false, request_key, payload },
                message,
                attachments@,
            ),
            |made: KeyedOutcome| keyed_outcome(made),
        ),
        CoordinatorCommand::AcceptDelivery { message_id, native_correlation, correlation } => done(
            m,
            plain(accept_delivery(m, actor, message_id, native_correlation@, correlation)),
            |_v: ()| CommandOutcome::DeliveryAccepted { message_id },
        ),
        CoordinatorCommand::CompleteTask {
            native_turn_id,
            result,
            attachments,
            verification,
        } => left(
            complete_task(m, actor, native_turn_id@, result, attachments@, verification@),
            |revision: u32| CommandOutcome::ResultRecorded { task_id: result.task, revision },
        ),
        CoordinatorCommand::RecordTurnCompleted {
            task_id,
            turn,
            succeeded,
            captured,
            message_id,
        } => left(
            record_turn_completed(
                m,
                actor,
                task_id,
                turn,
                succeeded,
                outcome(captured),
                message_id,
            ),
            |state: TaskState| CommandOutcome::TurnCompleted { task_id, state },
        ),
        CoordinatorCommand::CaptureRepositoryObservation {
            task_id,
            checkpoint,
            captured,
        } => left(
            observe_repository(m, actor, task_id, checkpoint, outcome(captured)),
            |_v: ()| CommandOutcome::ObservationRecorded {
                task_id,
                digest: observed_digest(captured),
            },
        ),
        CoordinatorCommand::ApproveTask {
            task_id,
            result_revision,
            observation_digest,
            digest,
            drift,
        } => left(
            approve_task(
                m,
                task_id,
                result_revision,
                observation_digest@,
                digest,
                optional_refusal(drift),
            ),
            |_v: ()| CommandOutcome::TaskApproved { task_id },
        ),
        CoordinatorCommand::CancelTask { task_id } => done(
            m,
            cancel_task(m, task_id),
            |state: TaskState| CommandOutcome::TaskCancellationUpdated { task_id, state },
        ),
        CoordinatorCommand::RecordCancellationCompleted { task_id, succeeded, captured } => left(
            record_cancellation_completed(m, actor, task_id, succeeded, outcome(captured)),
            |state: TaskState| CommandOutcome::TaskCancellationUpdated { task_id, state },
        ),
        CoordinatorCommand::MarkDeliveryUnknown { message_id, diagnostic, key } => done(
            m,
            mark_delivery_unknown(m, actor, message_id, diagnostic@, Wording::Given { text: key }),
            |task_id: TaskId| CommandOutcome::DeliveryUnknownUpdated {
                task_id,
                state: TaskState::DeliveryUnknown,
            },
        ),
        CoordinatorCommand::ResolveDeliveryUnknown {
            task_id,
            resolution,
            observation_digest,
            digest,
            audit_note,
            note,
            drift,
        } => done(
            m,
            resolve_delivery_unknown(
                m,
                task_id,
                resolution,
                observation_digest@,
                digest,
                audit_note@,
                note,
                optional_refusal(drift),
            ),
            |state: TaskState| CommandOutcome::DeliveryUnknownUpdated { task_id, state },
        ),
        CoordinatorCommand::ClearWorktreeHold {
            task_id,
            observation_digest,
            digest,
            audit_note,
            note,
            drift,
        } => done(
            m,
            plain(
                clear_worktree_hold(
                    m,
                    task_id,
                    observation_digest@,
                    digest,
                    audit_note@,
                    note,
                    optional_refusal(drift),
                ),
            ),
            |_v: ()| CommandOutcome::HoldCleared { task_id },
        ),
        CoordinatorCommand::StopWorker { worker_id } => done(
            m,
            plain(stop_worker(m, worker_id, now)),
            |_v: ()| CommandOutcome::WorkerStopping { worker_id },
        ),
        CoordinatorCommand::DeactivateWorkspace => done(
            m,
            plain(deactivate(m, actor, now)),
            |_v: ()| CommandOutcome::WorkspaceDeactivated,
        ),
        CoordinatorCommand::RecordHostStopped { clean } => done(
            m,
            plain(host_stopped(m, actor, clean, now)),
            |_v: ()| CommandOutcome::HostStopped { clean },
        ),
        CoordinatorCommand::RecordHostFailed { diagnostic, key, captured } => left(
            host_failed(
                m,
                actor,
                diagnostic@,
                Wording::Given { text: key },
                outcome(captured),
                now,
            ),
            |_v: ()| CommandOutcome::HostStopped { clean: false },
        ),
        CoordinatorCommand::RecordHostReady => done(
            m,
            plain(host_ready(m, actor, now)),
            |_v: ()| CommandOutcome::HostReady,
        ),
        CoordinatorCommand::RecordHostCompatibility {
            resolved_executable,
            observed_version,
            found,
            evidence,
            size,
        } => done(
            m,
            plain(
                host_compatibility(
                    m,
                    actor,
                    resolved_executable@,
                    observed_version@,
                    found,
                    evidence,
                    size,
                    now,
                ),
            ),
            |_v: ()| CommandOutcome::HostCompatibilityRecorded,
        ),
        CoordinatorCommand::RecordSupervisorBinding { native_session, native_thread } => done(
            m,
            plain(supervisor_binding(m, actor, native_session, native_thread, now)),
            |_v: ()| CommandOutcome::SupervisorBound,
        ),
        CoordinatorCommand::RecordSupervisorDisconnected { diagnostic, key } => done(
            m,
            plain(supervisor_disconnected(m, actor, optional_text(diagnostic), given(key), now)),
            |_v: ()| CommandOutcome::SupervisorDisconnected,
        ),
        CoordinatorCommand::RecordAdapterSnapshot { state } => done(
            m,
            plain(adapter_snapshot(m, actor, state, now)),
            |_v: ()| CommandOutcome::AdapterSnapshotRecorded,
        ),
        CoordinatorCommand::ClaimNextSupervisorEvent => (
            claim_event(m, actor).0,
            Ok(CommandOutcome::SupervisorEventClaimed { event: claim_event(m, actor).1 }),
        ),
        CoordinatorCommand::AcceptSupervisorEvent {
            event_id,
            native_correlation,
            evidence,
            said,
        } => done(
            m,
            plain(accept_event(m, actor, event_id, native_correlation@, evidence@, said)),
            |_v: ()| CommandOutcome::SupervisorEventUpdated {
                event_id,
                state: SupervisorEventDeliveryState::Accepted,
            },
        ),
        CoordinatorCommand::RecordSupervisorEventPresentation {
            event_id,
            phase,
            turn,
            evidence,
            key,
        } => done(
            m,
            plain(record_presentation(m, actor, event_id, phase, turn, evidence@, key)),
            |_v: ()| CommandOutcome::SupervisorEventUpdated {
                event_id,
                state: SupervisorEventDeliveryState::Accepted,
            },
        ),
        CoordinatorCommand::MarkSupervisorEventUnknown { event_id, diagnostic, key } => done(
            m,
            plain(mark_event_unknown(m, event_id, diagnostic@, key)),
            |_v: ()| CommandOutcome::SupervisorEventUpdated {
                event_id,
                state: SupervisorEventDeliveryState::Unknown,
            },
        ),
        CoordinatorCommand::ReleaseSupervisorEvent { event_id, diagnostic, key } => done(
            m,
            plain(release_event(m, event_id, diagnostic@, key)),
            |_v: ()| CommandOutcome::SupervisorEventUpdated {
                event_id,
                state: SupervisorEventDeliveryState::Pending,
            },
        ),
        CoordinatorCommand::AcknowledgeSupervisorEvents { event_ids } => done(
            m,
            plain(acknowledge_events(m, actor, event_ids@)),
            |_v: ()| CommandOutcome::SupervisorEventUpdated {
                event_id: event_ids@[0],
                state: SupervisorEventDeliveryState::Processed,
            },
        ),
        CoordinatorCommand::ReconcileSupervisorEvent {
            event_id,
            resolution,
            audit_note,
            note,
        } => done(
            m,
            reconcile_event(m, event_id, resolution, audit_note@, note),
            |state: SupervisorEventDeliveryState| CommandOutcome::SupervisorEventUpdated {
                event_id,
                state,
            },
        ),
        CoordinatorCommand::WatchTaskGraph { watch_id, root_task_ids, request_key } => done(
            m,
            plain(watch_graph(m, actor, watch_id, root_task_ids@, request_key)),
            |_v: ()| CommandOutcome::TaskGraphWatchRegistered { watch_id },
        ),
        CoordinatorCommand::RecordHostEvent { sequence, content, size } => done(
            m,
            plain(host_event(m, actor, sequence, content, size, now)),
            |_v: ()| CommandOutcome::HostEventRecorded { sequence },
        ),
        _ => (m, Err(not_permitted())),
    }
}

/// What a command does: nothing where it may not be given.
pub open spec fn execute(m: Model, caller: Caller, command: CoordinatorCommand, now: u64) -> (
    Model,
    Result<CommandOutcome, Refusal>,
) {
    match authorize(m, caller, command, now) {
        Err(e) => (m, Err(e)),
        Ok(None) => perform_bootstrap(m, command, now),
        Ok(Some(actor)) => perform(m, actor, command, now),
    }
}

impl Ledger {
    fn perform_bootstrap(&mut self, command: CoordinatorCommand, now: u64) -> (r: Result<
        CommandOutcome,
        CoordinatorError,
    >)
        ensures
            concludes(r, final(self)@, perform_bootstrap(old(self)@, command, now)),
    {
        match command {
            CoordinatorCommand::ReapStaleHostConnections {
                evidence,
            } => match self.reap_stale_host_connections(evidence, now) {
                Ok(count) => Ok(CommandOutcome::StaleHostConnectionsReaped { count }),
                Err(e) => Err(e),
            },
            CoordinatorCommand::PrepareSupervisorReconnect => {
                let claimed = self.prepare_supervisor_reconnect(now);
                Ok(CommandOutcome::SupervisorReconnectPrepared { claimed })
            },
            CoordinatorCommand::RegisterSupervisor { supervisor } => match self.register_supervisor(
                supervisor,
                now,
            ) {
                Ok(_) => Ok(CommandOutcome::SupervisorRegistered { session_id: supervisor.session }),
                Err(e) => Err(e),
            },
            _ => Err(
                refuse(ErrorCategory::Forbidden, "command is not permitted for this actor"),
            ),
        }
    }

    #[verifier::rlimit(60)]
    fn perform(&mut self, actor: AuthenticatedActor, command: CoordinatorCommand, now: u64) -> (r:
        Result<CommandOutcome, CoordinatorError>)
        requires
            now <= 0x7fff_ffff_ffff_ffff,
        ensures
            concludes(r, final(self)@, perform(old(self)@, actor, command, now)),
    {
        match command {
            CoordinatorCommand::BindHostConnection {
                instance_id,
                connection,
            } => match self.bind_host_connection(
                actor,
                instance_id.as_str(),
                connection,
                now,
            ) {
                Ok(generation) => Ok(
                    CommandOutcome::HostConnectionBound { connection_id: connection.id, generation },
                ),
                Err(e) => Err(e),
            },
            CoordinatorCommand::RenewHostConnection => match self.renew_host_connection(
                actor,
                now,
            ) {
                Ok(expires_at) => Ok(CommandOutcome::HostConnectionRenewed { expires_at }),
                Err(e) => Err(e),
            },
            CoordinatorCommand::DisconnectHostConnection {
                diagnostic,
                key,
            } => match self.disconnect_host_connection(
                actor,
                text_ref(&diagnostic),
                key,
            ) {
                Ok(_) => Ok(CommandOutcome::HostConnectionDisconnected),
                Err(e) => Err(e),
            },
            CoordinatorCommand::AdmitAttachment {
                attachment,
                media_type,
                original_name,
            } => match self.admit_attachment(
                attachment,
                media_type.as_str(),
                original_name.as_str(),
            ) {
                Ok(_) => Ok(CommandOutcome::AttachmentAdmitted { attachment }),
                Err(e) => Err(e),
            },
            CoordinatorCommand::MarkInboxRead { message_ids } => match self.mark_inbox_read(
                actor,
                &message_ids,
            ) {
                Ok(count) => Ok(CommandOutcome::InboxMarkedRead { count }),
                Err(e) => Err(e),
            },
            CoordinatorCommand::StartWorker { worker, profile, issued } => match self.start_worker(
                worker,
                profile,
                issued,
                now,
            ) {
                Ok(session_id) => Ok(CommandOutcome::WorkerStarted { session_id }),
                Err(e) => Err(e),
            },
            CoordinatorCommand::AbortWorkerStart {
                worker_id,
                diagnostic,
            } => match self.abort_worker_start(
                worker_id,
                diagnostic.as_str(),
                now,
            ) {
                Ok(_v) => Ok(CommandOutcome::HostStopped { clean: false }),
                Err(e) => Err(e),
            },
            CoordinatorCommand::CreateTask {
                request_key,
                payload,
                task,
                depends_on,
                attachments,
            } => match self.create_task(
                KeyedRequest { actor: actor.id, creates_task: true, request_key, payload },
                task,
                &depends_on,
                &attachments,
            ) {
                Ok(made) => Ok(answer_keyed(made)),
                Err(e) => Err(e),
            },
            CoordinatorCommand::DispatchTask { task_id, facts } => match self.dispatch_task(
                task_id,
                facts,
            ) {
                Ok(message_id) => Ok(CommandOutcome::TaskDispatching { task_id, message_id }),
                Err(e) => Err(e),
            },
            CoordinatorCommand::ClaimNextTask { facts } => match self.claim_next_task(
                actor.id,
                actor.session,
                facts,
            ) {
                Ok(answer) => Ok(answer_claim(answer)),
                Err(e) => Err(e),
            },
            CoordinatorCommand::RotateWorkerSession {
                session,
                capability,
            } => match self.rotate_worker_session(
                actor,
                session,
                capability,
                now,
            ) {
                Ok(_) => Ok(CommandOutcome::WorkerSessionRotated { session_id: session }),
                Err(e) => Err(e),
            },
            CoordinatorCommand::SendMessage {
                request_key,
                payload,
                message,
                attachments,
            } => match self.send_message(
                actor,
                KeyedRequest { actor: actor.id, creates_task: false, request_key, payload },
                message,
                &attachments,
            ) {
                Ok(made) => Ok(answer_keyed(made)),
                Err(e) => Err(e),
            },
            CoordinatorCommand::AcceptDelivery {
                message_id,
                native_correlation,
                correlation,
            } => match self.accept_delivery(
                actor,
                message_id,
                native_correlation.as_str(),
                correlation,
            ) {
                Ok(_) => Ok(CommandOutcome::DeliveryAccepted { message_id }),
                Err(e) => Err(e),
            },
            CoordinatorCommand::CompleteTask {
                native_turn_id,
                result,
                attachments,
                verification,
            } => match self.complete_task(
                actor,
                native_turn_id.as_str(),
                result,
                &attachments,
                &verification,
            ) {
                Ok(revision) => Ok(
                    CommandOutcome::ResultRecorded { task_id: result.task, revision },
                ),
                Err(e) => Err(e),
            },
            CoordinatorCommand::RecordTurnCompleted {
                task_id,
                turn,
                succeeded,
                captured,
                message_id,
            } => match self.record_turn_completed(
                actor,
                task_id,
                turn,
                succeeded,
                captured,
                message_id,
            ) {
                Ok(state) => Ok(CommandOutcome::TurnCompleted { task_id, state }),
                Err(e) => Err(e),
            },
            CoordinatorCommand::CaptureRepositoryObservation {
                task_id,
                checkpoint,
                captured,
            } => {
                let digest = digest_of(&captured);
                match self.capture_repository_observation(actor, task_id, checkpoint, captured) {
                    Ok(_v) => Ok(CommandOutcome::ObservationRecorded { task_id, digest }),
                    Err(e) => Err(e),
                }
            },
            CoordinatorCommand::ApproveTask {
                task_id,
                result_revision,
                observation_digest,
                digest,
                drift,
            } => match self.approve_task(
                task_id,
                result_revision,
                observation_digest.as_str(),
                digest,
                drift,
            ) {
                Ok(_v) => Ok(CommandOutcome::TaskApproved { task_id }),
                Err(e) => Err(e),
            },
            CoordinatorCommand::CancelTask { task_id } => match self.cancel_task(task_id) {
                Ok(state) => Ok(CommandOutcome::TaskCancellationUpdated { task_id, state }),
                Err(e) => Err(e),
            },
            CoordinatorCommand::RecordCancellationCompleted {
                task_id,
                succeeded,
                captured,
            } => match self.record_cancellation_completed(
                actor,
                task_id,
                succeeded,
                captured,
            ) {
                Ok(state) => Ok(CommandOutcome::TaskCancellationUpdated { task_id, state }),
                Err(e) => Err(e),
            },
            CoordinatorCommand::MarkDeliveryUnknown {
                message_id,
                diagnostic,
                key,
            } => match self.mark_delivery_unknown(
                actor,
                message_id,
                diagnostic.as_str(),
                Wording::Given { text: key },
            ) {
                Ok(task_id) => Ok(
                    CommandOutcome::DeliveryUnknownUpdated { task_id, state: TaskState::DeliveryUnknown },
                ),
                Err(e) => Err(e),
            },
            CoordinatorCommand::ResolveDeliveryUnknown {
                task_id,
                resolution,
                observation_digest,
                digest,
                audit_note,
                note,
                drift,
            } => match self.resolve_delivery_unknown(
                task_id,
                resolution,
                observation_digest.as_str(),
                digest,
                audit_note.as_str(),
                note,
                drift,
            ) {
                Ok(state) => Ok(CommandOutcome::DeliveryUnknownUpdated { task_id, state }),
                Err(e) => Err(e),
            },
            CoordinatorCommand::ClearWorktreeHold {
                task_id,
                observation_digest,
                digest,
                audit_note,
                note,
                drift,
            } => match self.clear_worktree_hold(
                task_id,
                observation_digest.as_str(),
                digest,
                audit_note.as_str(),
                note,
                drift,
            ) {
                Ok(_) => Ok(CommandOutcome::HoldCleared { task_id }),
                Err(e) => Err(e),
            },
            CoordinatorCommand::StopWorker { worker_id } => match self.stop_worker(worker_id, now) {
                Ok(_) => Ok(CommandOutcome::WorkerStopping { worker_id }),
                Err(e) => Err(e),
            },
            CoordinatorCommand::DeactivateWorkspace => match self.deactivate_workspace(actor, now) {
                Ok(_) => Ok(CommandOutcome::WorkspaceDeactivated),
                Err(e) => Err(e),
            },
            CoordinatorCommand::RecordHostStopped { clean } => match self.record_host_stopped(
                actor,
                clean,
                now,
            ) {
                Ok(_) => Ok(CommandOutcome::HostStopped { clean }),
                Err(e) => Err(e),
            },
            CoordinatorCommand::RecordHostFailed {
                diagnostic,
                key,
                captured,
            } => match self.record_host_failed(
                actor,
                diagnostic.as_str(),
                Wording::Given { text: key },
                captured,
                now,
            ) {
                Ok(_v) => Ok(CommandOutcome::HostStopped { clean: false }),
                Err(e) => Err(e),
            },
            CoordinatorCommand::RecordHostReady => match self.record_host_ready(actor, now) {
                Ok(_) => Ok(CommandOutcome::HostReady),
                Err(e) => Err(e),
            },
            CoordinatorCommand::RecordHostCompatibility {
                resolved_executable,
                observed_version,
                found,
                evidence,
                size,
            } => match self.record_host_compatibility(
                actor,
                resolved_executable.as_str(),
                observed_version.as_str(),
                found,
                &evidence,
                size,
                now,
            ) {
                Ok(_) => Ok(CommandOutcome::HostCompatibilityRecorded),
                Err(e) => Err(e),
            },
            CoordinatorCommand::RecordSupervisorBinding {
                native_session,
                native_thread,
            } => match self.record_supervisor_binding(
                actor,
                native_session,
                native_thread,
                now,
            ) {
                Ok(_) => Ok(CommandOutcome::SupervisorBound),
                Err(e) => Err(e),
            },
            CoordinatorCommand::RecordSupervisorDisconnected {
                diagnostic,
                key,
            } => match self.record_supervisor_disconnected(
                actor,
                text_ref(&diagnostic),
                given_text(key),
                now,
            ) {
                Ok(_) => Ok(CommandOutcome::SupervisorDisconnected),
                Err(e) => Err(e),
            },
            CoordinatorCommand::RecordAdapterSnapshot {
                state,
            } => match self.record_adapter_snapshot(
                actor,
                state,
                now,
            ) {
                Ok(_) => Ok(CommandOutcome::AdapterSnapshotRecorded),
                Err(e) => Err(e),
            },
            CoordinatorCommand::ClaimNextSupervisorEvent => {
                let event = self.claim_next_supervisor_event(actor);
                Ok(CommandOutcome::SupervisorEventClaimed { event })
            },
            CoordinatorCommand::AcceptSupervisorEvent {
                event_id,
                native_correlation,
                evidence,
                said,
            } => match self.accept_supervisor_event(
                actor,
                event_id,
                native_correlation.as_str(),
                evidence.as_str(),
                said,
            ) {
                Ok(_) => Ok(
                    CommandOutcome::SupervisorEventUpdated {
                        event_id,
                        state: SupervisorEventDeliveryState::Accepted,
                    },
                ),
                Err(e) => Err(e),
            },
            CoordinatorCommand::RecordSupervisorEventPresentation {
                event_id,
                phase,
                turn,
                evidence,
                key,
            } => match self.record_supervisor_event_presentation(
                actor,
                event_id,
                phase,
                turn,
                evidence.as_str(),
                key,
            ) {
                Ok(_) => Ok(
                    CommandOutcome::SupervisorEventUpdated {
                        event_id,
                        state: SupervisorEventDeliveryState::Accepted,
                    },
                ),
                Err(e) => Err(e),
            },
            CoordinatorCommand::MarkSupervisorEventUnknown {
                event_id,
                diagnostic,
                key,
            } => match self.mark_supervisor_event_unknown(
                event_id,
                diagnostic.as_str(),
                key,
            ) {
                Ok(_) => Ok(
                    CommandOutcome::SupervisorEventUpdated {
                        event_id,
                        state: SupervisorEventDeliveryState::Unknown,
                    },
                ),
                Err(e) => Err(e),
            },
            CoordinatorCommand::ReleaseSupervisorEvent {
                event_id,
                diagnostic,
                key,
            } => match self.release_supervisor_event(
                event_id,
                diagnostic.as_str(),
                key,
            ) {
                Ok(_) => Ok(
                    CommandOutcome::SupervisorEventUpdated {
                        event_id,
                        state: SupervisorEventDeliveryState::Pending,
                    },
                ),
                Err(e) => Err(e),
            },
            CoordinatorCommand::AcknowledgeSupervisorEvents {
                event_ids,
            } => match self.acknowledge_supervisor_events(
                actor,
                &event_ids,
            ) {
                Ok(_) => Ok(
                    CommandOutcome::SupervisorEventUpdated {
                        event_id: event_ids[0],
                        state: SupervisorEventDeliveryState::Processed,
                    },
                ),
                Err(e) => Err(e),
            },
            CoordinatorCommand::ReconcileSupervisorEvent {
                event_id,
                resolution,
                audit_note,
                note,
            } => match self.reconcile_supervisor_event(
                event_id,
                resolution,
                audit_note.as_str(),
                note,
            ) {
                Ok(state) => Ok(CommandOutcome::SupervisorEventUpdated { event_id, state }),
                Err(e) => Err(e),
            },
            CoordinatorCommand::WatchTaskGraph {
                watch_id,
                root_task_ids,
                request_key,
            } => match self.watch_task_graph(
                actor,
                watch_id,
                &root_task_ids,
                request_key,
            ) {
                Ok(_) => Ok(CommandOutcome::TaskGraphWatchRegistered { watch_id }),
                Err(e) => Err(e),
            },
            CoordinatorCommand::RecordHostEvent {
                sequence,
                content,
                size,
            } => match self.record_host_event(
                actor,
                sequence,
                content,
                size,
                now,
            ) {
                Ok(_) => Ok(CommandOutcome::HostEventRecorded { sequence }),
                Err(e) => Err(e),
            },
            _ => Err(
                refuse(ErrorCategory::Forbidden, "command is not permitted for this actor"),
            ),
        }
    }

    /// Executes one command; instants are microseconds.
    pub fn execute(&mut self, caller: Caller, command: CoordinatorCommand, now: u64) -> (r: Result<
        CommandOutcome,
        CoordinatorError,
    >)
        requires
            now <= 0x7fff_ffff_ffff_ffff,
        ensures
            concludes(r, final(self)@, execute(old(self)@, caller, command, now)),
    {
        match self.authorize(caller, &command, now) {
            Err(e) => Err(e),
            Ok(None) => self.perform_bootstrap(command, now),
            Ok(Some(actor)) => self.perform(actor, command, now),
        }
    }
}

} // verus!

//! Rows of the durable tables. Every table keeps its rows in creation order; texts are kept once, in
//! name tables beside the ledger, and stand here as their numbers.
use vstd::prelude::*;

use crate::adapter::AdapterLifecycle;
use crate::contract::{
    Activity, DeliveryIntent, DependencyCondition, DependencyFailurePolicy, HarnessTier,
    NativeSessionHealth, ObservationCheckpoint, Presence, RepositoryAccess, SessionReusePolicy,
    SupervisorEventDeliveryState, SupervisorEventKind, TaskRole, TaskSchedulingState, TaskState,
};
use crate::identity::{
    AttachmentId, DeliveryAttemptId, HarnessSessionId, HostConnectionId, MessageId,
    RepositoryObservationId, SupervisorEventId, TaskGraphWatchId, TaskId, WorktreeHoldId,
};
use crate::ledger::attention::SupervisorEventResolution;

verus! {

/// Number of a registered Harness.
pub type HarnessKey = u64;

/// Number of a canonical worktree root.
pub type WorktreeKey = u64;

/// Number of an interned text (a body, a diagnostic, a digest, a native identity).
pub type TextKey = u64;

/// Stored words: a text that a command brought, by its number, or words of the Coordinator's own.
#[derive(Debug, Clone, Copy, PartialEq, Eq, Structural)]
pub enum Wording {
    /// A text that a command brought.
    Given { text: TextKey },
    /// Why no Session could be chosen, with the code of the reason.
    SelectionBlocked { reason: TextKey, code: TextKey },
    /// The lease of the managed Supervisor ran out.
    SupervisorLeaseExpired,
    /// The lease of a Worker Host ran out while a Task was on its way to it.
    DispatchLeaseExpired,
    /// The lease of a Worker Host ran out.
    WorkerLeaseExpired,
    /// The managed Supervisor disconnected without a diagnostic.
    SupervisorDisconnected,
    /// The same, said of a delivery that was under way.
    SupervisorDisconnectedDispatching,
    /// The managed Supervisor came back before acceptance was recorded.
    SupervisorReconnected,
    /// A Worker Host stopped.
    HostStopped { clean: bool },
    /// A newer generation took over.
    Superseded,
    /// A lease ran out and its work is still to be settled.
    SettlementPending,
    /// A lease ran out and its work is settled.
    SettlementComplete,
    /// A lease ran out and something else settled its work.
    SettlementOvertaken,
}

/// A registered Harness.
#[derive(Debug, Clone, Copy, PartialEq, Eq, Structural)]
pub struct HarnessRow {
    pub key: HarnessKey,
    pub tier: HarnessTier,
    pub worktree: WorktreeKey,
    pub definition: TextKey,
    pub model: Option<TextKey>,
}

/// Who gave a command: a live Session of a registered Harness, and the Host connection that the
/// command came through, if any.
#[derive(Debug, Clone, Copy, PartialEq, Eq, Structural)]
pub struct AuthenticatedActor {
    pub id: HarnessKey,
    pub tier: HarnessTier,
    pub session: HarnessSessionId,
    pub connection: Option<HostConnectionId>,
}

/// What an Adapter last said of a native Session. Texts, and the share of the context in use, are
/// kept by the numbers of their written forms.
#[derive(Debug, Clone, Copy, PartialEq, Eq, Structural)]
pub struct AdapterRow {
    pub lifecycle: AdapterLifecycle,
    pub session: Option<TextKey>,
    pub thread: Option<TextKey>,
    pub active_turn: Option<TextKey>,
    pub steerable: bool,
    pub queued_inputs: Option<u32>,
    pub model: Option<TextKey>,
    pub health: NativeSessionHealth,
    pub context_tokens: Option<u64>,
    pub context_window: Option<u64>,
    pub context_percent: Option<TextKey>,
    pub compactions: Option<u32>,
}

/// A Harness Session; instants are microseconds.
#[derive(Debug, Clone, Copy, PartialEq, Eq, Structural)]
pub struct SessionRow {
    pub id: HarnessSessionId,
    pub harness: HarnessKey,
    pub tier: HarnessTier,
    pub capability: TextKey,
    pub generation: u64,
    pub presence: Presence,
    pub activity: Activity,
    pub ended: bool,
    /// The digest of the launch profile, and its source.
    pub profile: Option<TextKey>,
    pub source: Option<TextKey>,
    pub model: Option<TextKey>,
    pub tool_policy: Option<TextKey>,
    pub health: NativeSessionHealth,
    pub safe_compaction: bool,
    pub compactions: Option<u32>,
    pub context_tokens: Option<u64>,
    pub context_window: Option<u64>,
    pub context_percent: Option<TextKey>,
    /// The last snapshot of the Adapter, until it is disconnected.
    pub snapshot: Option<AdapterRow>,
    pub event_sequence: u64,
    pub native_session: Option<TextKey>,
    pub native_thread: Option<TextKey>,
    /// The executable and the version that a Worker Host found, and its handshake evidence.
    pub executable: Option<TextKey>,
    pub version: Option<TextKey>,
    pub compatibility: Option<TextKey>,
    pub last_seen: u64,
}

/// A Task.
#[derive(Debug, Clone, Copy, PartialEq, Eq, Structural)]
pub struct TaskRow {
    pub id: TaskId,
    pub worker: HarnessKey,
    pub related: Option<TaskId>,
    pub state: TaskState,
    pub scheduling: TaskSchedulingState,
    pub role: TaskRole,
    pub policy: SessionReusePolicy,
    pub preferred_session: Option<HarnessSessionId>,
    pub access: RepositoryAccess,
    pub worktree: WorktreeKey,
    pub revision: u32,
    pub approved_revision: Option<u32>,
    pub approval: Option<RepositoryObservationId>,
    pub active_session: Option<HarnessSessionId>,
    pub expected_profile: Option<TextKey>,
    pub expected_model: Option<TextKey>,
    pub expected_tool_policy: Option<TextKey>,
    /// The submission as it was made.
    pub submission: TextKey,
}

/// One dependency edge: `task` waits for `upstream`.
#[derive(Debug, Clone, Copy, PartialEq, Eq, Structural)]
pub struct DependencyRow {
    pub task: TaskId,
    pub upstream: TaskId,
    pub condition: DependencyCondition,
    pub policy: DependencyFailurePolicy,
    pub satisfied: Option<u32>,
    pub snapshot: Option<AttachmentId>,
    pub bound: bool,
}

/// Kinds of stored Messages: the public ones and the two that the Coordinator writes itself.
#[derive(Debug, Clone, Copy, PartialEq, Eq, Structural)]
pub enum StoredMessageKind {
    Task,
    Question,
    Reply,
    Correction,
    Notification,
    Result,
}

impl StoredMessageKind {
    /// Persisted name.
    pub open spec fn name(self) -> Seq<char> {
        match self {
            StoredMessageKind::Task => "task"@,
            StoredMessageKind::Question => "question"@,
            StoredMessageKind::Reply => "reply"@,
            StoredMessageKind::Correction => "correction"@,
            StoredMessageKind::Notification => "notification"@,
            StoredMessageKind::Result => "result"@,
        }
    }

    /// Persisted name.
    pub fn as_str(self) -> (r: &'static str)
        ensures
            r@ == self.name(),
    {
        match self {
            StoredMessageKind::Task => "task",
            StoredMessageKind::Question => "question",
            StoredMessageKind::Reply => "reply",
            StoredMessageKind::Correction => "correction",
            StoredMessageKind::Notification => "notification",
            StoredMessageKind::Result => "result",
        }
    }
}

/// A Bus Message.
#[derive(Debug, Clone, Copy, PartialEq, Eq, Structural)]
pub struct MessageRow {
    pub id: MessageId,
    pub task: Option<TaskId>,
    pub sender: HarnessKey,
    pub recipient: HarnessKey,
    pub kind: StoredMessageKind,
    pub reply_to: Option<MessageId>,
    pub intent: DeliveryIntent,
    /// The Message as it was submitted: a submission or a Result manifest.
    pub body: TextKey,
}

/// An Attachment in Coordinator-owned storage.
#[derive(Debug, Clone, Copy, PartialEq, Eq, Structural)]
pub struct AttachmentRow {
    pub id: AttachmentId,
    pub digest: TextKey,
    pub size_bytes: u64,
    pub media_type: TextKey,
    pub original_name: TextKey,
    pub storage_path: TextKey,
}

/// What names Attachments.
#[derive(Debug, Clone, Copy, PartialEq, Eq, Structural)]
pub enum AttachmentOwner {
    /// The submission of a Task.
    Task { task: TaskId },
    /// A Message.
    Message { message: MessageId },
    /// The Result of a revision.
    Result { task: TaskId, revision: u32 },
}

/// One Attachment named by its owner; the rows of an owner stand in the order of naming.
#[derive(Debug, Clone, Copy, PartialEq, Eq, Structural)]
pub struct AttachedRow {
    pub owner: AttachmentOwner,
    pub attachment: AttachmentId,
}

/// State of one native delivery attempt.
#[derive(Debug, Clone, Copy, PartialEq, Eq, Structural)]
pub enum AttemptState {
    Pending,
    Dispatching,
    Accepted,
    Unknown,
    Cancelled,
}

impl AttemptState {
    /// Persisted name.
    pub open spec fn name(self) -> Seq<char> {
        match self {
            AttemptState::Pending => "pending"@,
            AttemptState::Dispatching => "dispatching"@,
            AttemptState::Accepted => "accepted"@,
            AttemptState::Unknown => "unknown"@,
            AttemptState::Cancelled => "cancelled"@,
        }
    }

    /// Persisted name.
    pub fn as_str(self) -> (r: &'static str)
        ensures
            r@ == self.name(),
    {
        match self {
            AttemptState::Pending => "pending",
            AttemptState::Dispatching => "dispatching",
            AttemptState::Accepted => "accepted",
            AttemptState::Unknown => "unknown",
            AttemptState::Cancelled => "cancelled",
        }
    }
}

/// One native delivery attempt of a Message; the last row of a Message is its latest attempt.
#[derive(Debug, Clone, Copy, PartialEq, Eq, Structural)]
pub struct AttemptRow {
    pub message: MessageId,
    pub session: Option<HarnessSessionId>,
    pub state: AttemptState,
    pub wrote: bool,
    /// What the native session calls the delivery, once it accepted it.
    pub correlation: Option<TextKey>,
    /// Why acceptance is in doubt.
    pub doubt: Option<Wording>,
}

/// A Message read by its recipient.
#[derive(Debug, Clone, Copy, PartialEq, Eq, Structural)]
pub struct ReadRow {
    pub harness: HarnessKey,
    pub message: MessageId,
}

/// The lease of a worktree: at most one row for each worktree.
#[derive(Debug, Clone, Copy, PartialEq, Eq, Structural)]
pub struct LeaseRow {
    pub worktree: WorktreeKey,
    pub task: TaskId,
    pub released: bool,
}

/// Stable reason of a Worktree Hold.
#[derive(Debug, Clone, Copy, PartialEq, Eq, Structural)]
pub enum HoldReason {
    OutOfScopeMutation,
    NativeTurnFailed,
    RepositoryCheckpointFailed,
    OutOfScopeApprovalDrift,
    RepositoryObservationFailed,
    CancelledAfterDispatch,
    CancellationFailed,
    DeliveryUnknown,
    WorkerHostFailed,
}

/// A Worktree Hold: at most one active row for each worktree.
#[derive(Debug, Clone, Copy, PartialEq, Eq, Structural)]
pub struct HoldRow {
    pub id: WorktreeHoldId,
    pub worktree: WorktreeKey,
    pub task: TaskId,
    pub reason: HoldReason,
    pub cleared: bool,
    pub observation: Option<RepositoryObservationId>,
    /// The audit note of its clearance.
    pub note: Option<TextKey>,
}

/// An indexed Repository Observation.
#[derive(Debug, Clone, Copy, PartialEq, Eq, Structural)]
pub struct ObservationRow {
    pub id: RepositoryObservationId,
    pub task: TaskId,
    pub checkpoint: ObservationCheckpoint,
    pub digest: TextKey,
    pub out_of_scope: bool,
}

/// A stored repository snapshot: at most one row for each Task and checkpoint.
#[derive(Debug, Clone, Copy, PartialEq, Eq, Structural)]
pub struct SnapshotRow {
    pub task: TaskId,
    pub checkpoint: ObservationCheckpoint,
    pub content: TextKey,
}

/// A Result admitted for one revision.
#[derive(Debug, Clone, Copy, PartialEq, Eq, Structural)]
pub struct ResultRow {
    pub task: TaskId,
    pub revision: u32,
    pub turn: TextKey,
    pub terminal: bool,
    pub snapshot: AttachmentId,
    /// The manifest as it was submitted, and its summary.
    pub manifest: TextKey,
    pub summary: TextKey,
}

/// What gave rise to a Supervisor event; no two events have the same origin.
#[derive(Debug, Clone, Copy, PartialEq, Eq, Structural)]
pub enum EventOrigin {
    TaskFailed { task: TaskId },
    SessionBlocked { task: TaskId },
    Question { message: MessageId },
    Result { task: TaskId, revision: u32 },
    TurnSettlementHold { task: TaskId },
    Hold { task: TaskId, reason: HoldReason },
    Delivery { message: MessageId },
    GraphCompleted { watch: TaskGraphWatchId },
}

/// A durable Supervisor-attention event.
#[derive(Debug, Clone, Copy, PartialEq, Eq, Structural)]
pub struct EventRow {
    pub id: SupervisorEventId,
    pub kind: SupervisorEventKind,
    pub task: Option<TaskId>,
    pub revision: Option<u32>,
    pub message: Option<MessageId>,
    pub origin: EventOrigin,
    pub intent: DeliveryIntent,
    pub state: SupervisorEventDeliveryState,
    /// What the event says; none where the words go with its origin.
    pub summary: Option<Wording>,
}

/// One native injection attempt of a Supervisor event.
#[derive(Debug, Clone, Copy, PartialEq, Eq, Structural)]
pub struct EventAttemptRow {
    pub id: DeliveryAttemptId,
    pub event: SupervisorEventId,
    pub session: HarnessSessionId,
    pub connection: Option<HostConnectionId>,
    pub state: AttemptState,
    pub wrote: bool,
    /// What the native session calls the injection, once it accepted it.
    pub correlation: Option<TextKey>,
    /// The native turn that the acceptance names.
    pub turn: Option<TextKey>,
    /// The evidence of acceptance, or the diagnostic of a release.
    pub evidence: Option<TextKey>,
    /// Why delivery is in doubt.
    pub doubt: Option<Wording>,
}

/// What was observed of an accepted injection.
#[derive(Debug, Clone, Copy, PartialEq, Eq, Structural)]
pub enum EventObservationKind {
    Presented,
    TurnStarted,
    TurnCompleted,
    PresentationTimeout,
}

/// One observation, with the native Session and thread that it was made in; no two rows are equal
/// in event, attempt, kind and turn.
#[derive(Debug, Clone, Copy, PartialEq, Eq, Structural)]
pub struct EventObservationRow {
    pub event: SupervisorEventId,
    pub attempt: DeliveryAttemptId,
    pub kind: EventObservationKind,
    pub turn: Option<TextKey>,
    pub native_session: Option<TextKey>,
    pub native_thread: Option<TextKey>,
    pub evidence: Wording,
}

/// What the Supervisor decided about an event whose delivery was in doubt, with the latest attempt.
#[derive(Debug, Clone, Copy, PartialEq, Eq, Structural)]
pub struct ReconciliationRow {
    pub event: SupervisorEventId,
    pub attempt: Option<DeliveryAttemptId>,
    pub resolution: SupervisorEventResolution,
    pub note: TextKey,
}

/// A completion watch over an explicit set of root Tasks.
#[derive(Debug, Clone, Copy, PartialEq, Eq, Structural)]
pub struct WatchRow {
    pub id: TaskGraphWatchId,
    pub supervisor: HarnessKey,
    pub request_key: Option<TextKey>,
    pub completed: bool,
}

/// One root of a watch.
#[derive(Debug, Clone, Copy, PartialEq, Eq, Structural)]
pub struct WatchRootRow {
    pub watch: TaskGraphWatchId,
    pub task: TaskId,
}

/// State of a Host connection.
#[derive(Debug, Clone, Copy, PartialEq, Eq, Structural)]
pub enum ConnectionStatus {
    Active,
    /// Closed; `settling` until the work of an expired lease is settled.
    Disconnected { settling: bool },
    Expired,
}

/// A generation-fenced Host connection; instants are microseconds.
#[derive(Debug, Clone, Copy, PartialEq, Eq, Structural)]
pub struct ConnectionRow {
    pub id: HostConnectionId,
    pub session: HarnessSessionId,
    pub generation: u64,
    pub capability: TextKey,
    pub lease_seconds: u32,
    pub expires_at: u64,
    pub status: ConnectionStatus,
    /// What the Host calls itself.
    pub instance: TextKey,
    /// Why the connection was closed, where a reason was given.
    pub reason: Option<Wording>,
}

/// Why a Session was chosen for a Task.
#[derive(Debug, Clone, Copy, PartialEq, Eq, Structural)]
pub enum BindingReason {
    /// A fresh Session that never executed a Task.
    FreshUnbound,
    /// The reuse rules, with the code and the reason that they gave.
    Evaluated { code: TextKey, reason: TextKey },
}

/// Which Session a Task was bound to.
#[derive(Debug, Clone, Copy, PartialEq, Eq, Structural)]
pub struct BindingRow {
    pub task: TaskId,
    pub session: HarnessSessionId,
    pub requested: SessionReusePolicy,
    pub effective: SessionReusePolicy,
    pub reused: bool,
    pub reason: BindingReason,
    /// What the Adapter said of the Session when the Task was bound to it.
    pub adapter: AdapterRow,
    pub superseded: bool,
}

/// Why a transition happened.
#[derive(Debug, Clone, Copy, PartialEq, Eq, Structural)]
pub enum TransitionReason {
    Plain,
    DependencyFailed,
    DependencyAlreadyFailed,
    AlreadySatisfied,
    UpstreamCorrection,
    MissingEvidence,
    HostFailure { why: Wording },
}

/// One lifecycle transition of a Task.
#[derive(Debug, Clone, Copy, PartialEq, Eq, Structural)]
pub struct TransitionRow {
    pub task: TaskId,
    pub from: Option<TaskState>,
    pub to: TaskState,
    pub reason: TransitionReason,
}

/// One scheduling transition of a Task.
#[derive(Debug, Clone, Copy, PartialEq, Eq, Structural)]
pub struct SchedulingRow {
    pub task: TaskId,
    pub from: Option<TaskSchedulingState>,
    pub to: TaskSchedulingState,
    pub reason: TransitionReason,
}

/// Commands whose outcome is remembered for a request key.
#[derive(Debug, Clone, Copy, PartialEq, Eq, Structural)]
pub enum KeyedOutcome {
    TaskCreated { task: TaskId, message: MessageId },
    MessageCreated { message: MessageId },
}

/// A remembered outcome.
#[derive(Debug, Clone, Copy, PartialEq, Eq, Structural)]
pub struct IdempotencyRow {
    pub actor: HarnessKey,
    pub creates_task: bool,
    pub request_key: TextKey,
    pub payload: TextKey,
    pub outcome: KeyedOutcome,
}

/// One Host event kept for reconnect replay.
#[derive(Debug, Clone, Copy, PartialEq, Eq, Structural)]
pub struct HostEventRow {
    pub session: HarnessSessionId,
    pub sequence: u64,
    pub content: TextKey,
}

} // verus!

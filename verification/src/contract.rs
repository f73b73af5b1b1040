//! Vocabulary of the Coordinator: enumerations with their persisted names.
use vstd::prelude::*;

use crate::error::{refusal, CoordinatorError, ErrorCategory, Refusal};
use crate::text::{join3, same_text};

verus! {

/// Version of every persisted contract.
pub const SCHEMA_VERSION: u32 = 1;

/// The refusal of a persisted name that no variant has.
pub open spec fn unknown_name(prefix: Seq<char>, value: Seq<char>) -> Refusal {
    refusal(ErrorCategory::StorageFailure, prefix + value + "`"@)
}

fn unknown(prefix: &str, value: &str) -> (r: CoordinatorError)
    ensures
        r@ == unknown_name(prefix@, value@),
{
    CoordinatorError::new(ErrorCategory::StorageFailure, join3(prefix, value, "`"))
}

/// Authority of a Harness.
#[derive(Debug, Clone, Copy, PartialEq, Eq, Structural)]
pub enum HarnessTier {
    /// Sole planning and verification authority.
    Supervisor,
    /// Execution Harness.
    Worker,
}

impl HarnessTier {
    /// Persisted name.
    pub open spec fn name(self) -> Seq<char> {
        match self {
            HarnessTier::Supervisor => "supervisor"@,
            HarnessTier::Worker => "worker"@,
        }
    }
}

/// Persisted name.
pub fn harness_tier_as_str(value: HarnessTier) -> (r: &'static str)
    ensures
        r@ == value.name(),
{
    match value {
        HarnessTier::Supervisor => "supervisor",
        HarnessTier::Worker => "worker",
    }
}

/// The variant of a persisted name.
pub fn harness_tier_from_str(value: &str) -> (r: Result<HarnessTier, CoordinatorError>)
    ensures
        match r {
            Ok(v) => v.name() == value@,
            Err(e) => {
                &&& e@ == unknown_name("unknown Harness tier `"@, value@)
                &&& forall|v: HarnessTier| v.name() != value@
            },
        },
{
    if same_text(value, "supervisor") {
        Ok(HarnessTier::Supervisor)
    } else if same_text(value, "worker") {
        Ok(HarnessTier::Worker)
    } else {
        Err(unknown("unknown Harness tier `", value))
    }
}

/// No two variants of [`HarnessTier`] share a persisted name:
/// reading a written name gives the variant back.
pub proof fn harness_tier_names_differ(a: HarnessTier, b: HarnessTier)
    requires
        a.name() == b.name(),
    ensures
        a == b,
{
    reveal_strlit("supervisor");
    reveal_strlit("worker");
    assert("supervisor"@.len() == 10);
    assert("worker"@.len() == 6);
}

/// Native Harness implementation.
#[derive(Debug, Clone, Copy, PartialEq, Eq, Structural)]
pub enum HarnessKind {
    /// OMP RPC.
    Omp,
    /// Codex App Server.
    Codex,
}

impl HarnessKind {
    /// Persisted name.
    pub open spec fn name(self) -> Seq<char> {
        match self {
            HarnessKind::Omp => "omp"@,
            HarnessKind::Codex => "codex"@,
        }
    }
}

/// Persisted name.
pub fn kind_name(value: HarnessKind) -> (r: &'static str)
    ensures
        r@ == value.name(),
{
    match value {
        HarnessKind::Omp => "omp",
        HarnessKind::Codex => "codex",
    }
}

/// No two variants of [`HarnessKind`] share a persisted name:
/// reading a written name gives the variant back.
pub proof fn harness_kind_names_differ(a: HarnessKind, b: HarnessKind)
    requires
        a.name() == b.name(),
    ensures
        a == b,
{
    reveal_strlit("omp");
    reveal_strlit("codex");
    assert("omp"@.len() == 3);
    assert("codex"@.len() == 5);
}

/// Public Bus Message kinds.
#[derive(Debug, Clone, Copy, PartialEq, Eq, Structural)]
pub enum MessageKind {
    /// Blocking Worker question.
    Question,
    /// Supervisor answer to one question.
    Reply,
    /// Supervisor correction of a reviewed Result.
    Correction,
    /// Informational message.
    Notification,
}

impl MessageKind {
    /// Persisted name.
    pub open spec fn name(self) -> Seq<char> {
        match self {
            MessageKind::Question => "question"@,
            MessageKind::Reply => "reply"@,
            MessageKind::Correction => "correction"@,
            MessageKind::Notification => "notification"@,
        }
    }
}

/// Persisted name.
pub fn message_kind_name(value: MessageKind) -> (r: &'static str)
    ensures
        r@ == value.name(),
{
    match value {
        MessageKind::Question => "question",
        MessageKind::Reply => "reply",
        MessageKind::Correction => "correction",
        MessageKind::Notification => "notification",
    }
}

/// The kind of Message with a name.
pub fn message_kind_named(name: &str) -> (r: Option<MessageKind>)
    ensures
        match r {
            Some(v) => v.name() == name@,
            None => forall|v: MessageKind| v.name() != name@,
        },
{
    if same_text(name, "question") {
        Some(MessageKind::Question)
    } else if same_text(name, "reply") {
        Some(MessageKind::Reply)
    } else if same_text(name, "correction") {
        Some(MessageKind::Correction)
    } else if same_text(name, "notification") {
        Some(MessageKind::Notification)
    } else {
        None
    }
}

/// No two variants of [`MessageKind`] share a persisted name:
/// reading a written name gives the variant back.
pub proof fn message_kind_names_differ(a: MessageKind, b: MessageKind)
    requires
        a.name() == b.name(),
    ensures
        a == b,
{
    reveal_strlit("question");
    reveal_strlit("reply");
    reveal_strlit("correction");
    reveal_strlit("notification");
    assert("question"@.len() == 8);
    assert("reply"@.len() == 5);
    assert("correction"@.len() == 10);
    assert("notification"@.len() == 12);
}

/// How a Message is meant to reach its recipient.
#[derive(Debug, Clone, Copy, PartialEq, Eq, Structural)]
pub enum DeliveryIntent {
    /// Input after the current turn.
    FollowUp,
    /// Input into the active turn.
    Steer,
}

impl DeliveryIntent {
    /// Persisted name.
    pub open spec fn name(self) -> Seq<char> {
        match self {
            DeliveryIntent::FollowUp => "follow_up"@,
            DeliveryIntent::Steer => "steer"@,
        }
    }
}

/// Persisted name.
pub fn delivery_intent_name(value: DeliveryIntent) -> (r: &'static str)
    ensures
        r@ == value.name(),
{
    match value {
        DeliveryIntent::FollowUp => "follow_up",
        DeliveryIntent::Steer => "steer",
    }
}

/// The variant of a persisted name.
pub fn delivery_intent_from_str(value: &str) -> (r: Result<DeliveryIntent, CoordinatorError>)
    ensures
        match r {
            Ok(v) => v.name() == value@,
            Err(e) => {
                &&& e@ == unknown_name("unknown delivery intent `"@, value@)
                &&& forall|v: DeliveryIntent| v.name() != value@
            },
        },
{
    if same_text(value, "follow_up") {
        Ok(DeliveryIntent::FollowUp)
    } else if same_text(value, "steer") {
        Ok(DeliveryIntent::Steer)
    } else {
        Err(unknown("unknown delivery intent `", value))
    }
}

/// No two variants of [`DeliveryIntent`] share a persisted name:
/// reading a written name gives the variant back.
pub proof fn delivery_intent_names_differ(a: DeliveryIntent, b: DeliveryIntent)
    requires
        a.name() == b.name(),
    ensures
        a == b,
{
    reveal_strlit("follow_up");
    reveal_strlit("steer");
    assert("follow_up"@.len() == 9);
    assert("steer"@.len() == 5);
}

/// What an upstream Task has to reach.
#[derive(Debug, Clone, Copy, PartialEq, Eq, Structural)]
pub enum DependencyCondition {
    /// A reviewable Result exists.
    ResultReady,
    /// The Result was approved.
    Approved,
}

impl DependencyCondition {
    /// Persisted name.
    pub open spec fn name(self) -> Seq<char> {
        match self {
            DependencyCondition::ResultReady => "result_ready"@,
            DependencyCondition::Approved => "approved"@,
        }
    }
}

/// Persisted name.
pub fn dependency_condition_as_str(value: DependencyCondition) -> (r: &'static str)
    ensures
        r@ == value.name(),
{
    match value {
        DependencyCondition::ResultReady => "result_ready",
        DependencyCondition::Approved => "approved",
    }
}

/// The variant of a persisted name.
pub fn dependency_condition_from_str(value: &str) -> (r: Result<
    DependencyCondition,
    CoordinatorError,
>)
    ensures
        match r {
            Ok(v) => v.name() == value@,
            Err(e) => {
                &&& e@ == unknown_name("unknown dependency condition `"@, value@)
                &&& forall|v: DependencyCondition| v.name() != value@
            },
        },
{
    if same_text(value, "result_ready") {
        Ok(DependencyCondition::ResultReady)
    } else if same_text(value, "approved") {
        Ok(DependencyCondition::Approved)
    } else {
        Err(unknown("unknown dependency condition `", value))
    }
}

/// No two variants of [`DependencyCondition`] share a persisted name:
/// reading a written name gives the variant back.
pub proof fn dependency_condition_names_differ(a: DependencyCondition, b: DependencyCondition)
    requires
        a.name() == b.name(),
    ensures
        a == b,
{
    reveal_strlit("result_ready");
    reveal_strlit("approved");
    assert("result_ready"@.len() == 12);
    assert("approved"@.len() == 8);
}

/// What happens when an upstream Task fails.
#[derive(Debug, Clone, Copy, PartialEq, Eq, Structural)]
pub enum DependencyFailurePolicy {
    /// The dependent Task is cancelled.
    Cancel,
    /// The dependent Task stays blocked.
    KeepBlocked,
}

impl DependencyFailurePolicy {
    /// Persisted name.
    pub open spec fn name(self) -> Seq<char> {
        match self {
            DependencyFailurePolicy::Cancel => "cancel"@,
            DependencyFailurePolicy::KeepBlocked => "keep_blocked"@,
        }
    }
}

/// Persisted name.
pub fn dependency_failure_policy_as_str(value: DependencyFailurePolicy) -> (r: &'static str)
    ensures
        r@ == value.name(),
{
    match value {
        DependencyFailurePolicy::Cancel => "cancel",
        DependencyFailurePolicy::KeepBlocked => "keep_blocked",
    }
}

/// The variant of a persisted name.
pub fn dependency_failure_policy_from_str(value: &str) -> (r: Result<
    DependencyFailurePolicy,
    CoordinatorError,
>)
    ensures
        match r {
            Ok(v) => v.name() == value@,
            Err(e) => {
                &&& e@ == unknown_name("unknown dependency failure policy `"@, value@)
                &&& forall|v: DependencyFailurePolicy| v.name() != value@
            },
        },
{
    if same_text(value, "cancel") {
        Ok(DependencyFailurePolicy::Cancel)
    } else if same_text(value, "keep_blocked") {
        Ok(DependencyFailurePolicy::KeepBlocked)
    } else {
        Err(unknown("unknown dependency failure policy `", value))
    }
}

/// No two variants of [`DependencyFailurePolicy`] share a persisted name:
/// reading a written name gives the variant back.
pub proof fn dependency_failure_policy_names_differ(
    a: DependencyFailurePolicy,
    b: DependencyFailurePolicy,
)
    requires
        a.name() == b.name(),
    ensures
        a == b,
{
    reveal_strlit("cancel");
    reveal_strlit("keep_blocked");
    assert("cancel"@.len() == 6);
    assert("keep_blocked"@.len() == 12);
}

/// Durable Supervisor-attention events.
#[derive(Debug, Clone, Copy, PartialEq, Eq, Structural)]
pub enum SupervisorEventKind {
    /// A Result awaits review.
    ResultReady,
    /// A Worker waits for a Reply.
    BlockingQuestion,
    /// A Task failed.
    TaskFailed,
    /// Native acceptance is ambiguous.
    DeliveryUnknown,
    /// A Worktree Hold was created.
    WorktreeHoldCreated,
    /// All watched roots settled.
    TaskGraphCompleted,
    /// Informational event.
    Notification,
}

impl SupervisorEventKind {
    /// Persisted name.
    pub open spec fn name(self) -> Seq<char> {
        match self {
            SupervisorEventKind::ResultReady => "result_ready"@,
            SupervisorEventKind::BlockingQuestion => "blocking_question"@,
            SupervisorEventKind::TaskFailed => "task_failed"@,
            SupervisorEventKind::DeliveryUnknown => "delivery_unknown"@,
            SupervisorEventKind::WorktreeHoldCreated => "worktree_hold_created"@,
            SupervisorEventKind::TaskGraphCompleted => "task_graph_completed"@,
            SupervisorEventKind::Notification => "notification"@,
        }
    }
}

/// Persisted name.
pub fn supervisor_event_kind_as_str(value: SupervisorEventKind) -> (r: &'static str)
    ensures
        r@ == value.name(),
{
    match value {
        SupervisorEventKind::ResultReady => "result_ready",
        SupervisorEventKind::BlockingQuestion => "blocking_question",
        SupervisorEventKind::TaskFailed => "task_failed",
        SupervisorEventKind::DeliveryUnknown => "delivery_unknown",
        SupervisorEventKind::WorktreeHoldCreated => "worktree_hold_created",
        SupervisorEventKind::TaskGraphCompleted => "task_graph_completed",
        SupervisorEventKind::Notification => "notification",
    }
}

/// The variant of a persisted name.
pub fn supervisor_event_kind_from_str(value: &str) -> (r: Result<
    SupervisorEventKind,
    CoordinatorError,
>)
    ensures
        match r {
            Ok(v) => v.name() == value@,
            Err(e) => {
                &&& e@ == unknown_name("unknown Supervisor event kind `"@, value@)
                &&& forall|v: SupervisorEventKind| v.name() != value@
            },
        },
{
    if same_text(value, "result_ready") {
        Ok(SupervisorEventKind::ResultReady)
    } else if same_text(value, "blocking_question") {
        Ok(SupervisorEventKind::BlockingQuestion)
    } else if same_text(value, "task_failed") {
        Ok(SupervisorEventKind::TaskFailed)
    } else if same_text(value, "delivery_unknown") {
        Ok(SupervisorEventKind::DeliveryUnknown)
    } else if same_text(value, "worktree_hold_created") {
        Ok(SupervisorEventKind::WorktreeHoldCreated)
    } else if same_text(value, "task_graph_completed") {
        Ok(SupervisorEventKind::TaskGraphCompleted)
    } else if same_text(value, "notification") {
        Ok(SupervisorEventKind::Notification)
    } else {
        Err(unknown("unknown Supervisor event kind `", value))
    }
}

/// No two variants of [`SupervisorEventKind`] share a persisted name:
/// reading a written name gives the variant back.
pub proof fn supervisor_event_kind_names_differ(a: SupervisorEventKind, b: SupervisorEventKind)
    requires
        a.name() == b.name(),
    ensures
        a == b,
{
    reveal_strlit("result_ready");
    reveal_strlit("blocking_question");
    reveal_strlit("task_failed");
    reveal_strlit("delivery_unknown");
    reveal_strlit("worktree_hold_created");
    reveal_strlit("task_graph_completed");
    reveal_strlit("notification");
    assert("result_ready"@.len() == 12);
    assert("blocking_question"@.len() == 17);
    assert("task_failed"@.len() == 11);
    assert("delivery_unknown"@.len() == 16);
    assert("worktree_hold_created"@.len() == 21);
    assert("task_graph_completed"@.len() == 20);
    assert("notification"@.len() == 12);
    assert("result_ready"@[0] != "notification"@[0]);
}

/// Delivery state of a Supervisor event.
#[derive(Debug, Clone, Copy, PartialEq, Eq, Structural)]
pub enum SupervisorEventDeliveryState {
    /// Waits in the attention FIFO.
    Pending,
    /// Native injection is in progress.
    Dispatching,
    /// The provider accepted the injection.
    Accepted,
    /// The Supervisor settled the event.
    Processed,
    /// Acceptance cannot be proven either way.
    Unknown,
    /// Reconciled without delivery.
    Cancelled,
}

impl SupervisorEventDeliveryState {
    /// Persisted name.
    pub open spec fn name(self) -> Seq<char> {
        match self {
            SupervisorEventDeliveryState::Pending => "pending"@,
            SupervisorEventDeliveryState::Dispatching => "dispatching"@,
            SupervisorEventDeliveryState::Accepted => "accepted"@,
            SupervisorEventDeliveryState::Processed => "processed"@,
            SupervisorEventDeliveryState::Unknown => "unknown"@,
            SupervisorEventDeliveryState::Cancelled => "cancelled"@,
        }
    }
}

/// Persisted name.
pub fn supervisor_event_state_as_str(value: SupervisorEventDeliveryState) -> (r: &'static str)
    ensures
        r@ == value.name(),
{
    match value {
        SupervisorEventDeliveryState::Pending => "pending",
        SupervisorEventDeliveryState::Dispatching => "dispatching",
        SupervisorEventDeliveryState::Accepted => "accepted",
        SupervisorEventDeliveryState::Processed => "processed",
        SupervisorEventDeliveryState::Unknown => "unknown",
        SupervisorEventDeliveryState::Cancelled => "cancelled",
    }
}

/// The variant of a persisted name.
pub fn supervisor_event_state_from_str(value: &str) -> (r: Result<
    SupervisorEventDeliveryState,
    CoordinatorError,
>)
    ensures
        match r {
            Ok(v) => v.name() == value@,
            Err(e) => {
                &&& e@ == unknown_name("unknown Supervisor event state `"@, value@)
                &&& forall|v: SupervisorEventDeliveryState| v.name() != value@
            },
        },
{
    if same_text(value, "pending") {
        Ok(SupervisorEventDeliveryState::Pending)
    } else if same_text(value, "dispatching") {
        Ok(SupervisorEventDeliveryState::Dispatching)
    } else if same_text(value, "accepted") {
        Ok(SupervisorEventDeliveryState::Accepted)
    } else if same_text(value, "processed") {
        Ok(SupervisorEventDeliveryState::Processed)
    } else if same_text(value, "unknown") {
        Ok(SupervisorEventDeliveryState::Unknown)
    } else if same_text(value, "cancelled") {
        Ok(SupervisorEventDeliveryState::Cancelled)
    } else {
        Err(unknown("unknown Supervisor event state `", value))
    }
}

/// No two variants of [`SupervisorEventDeliveryState`] share a persisted name:
/// reading a written name gives the variant back.
pub proof fn supervisor_event_delivery_state_names_differ(
    a: SupervisorEventDeliveryState,
    b: SupervisorEventDeliveryState,
)
    requires
        a.name() == b.name(),
    ensures
        a == b,
{
    reveal_strlit("pending");
    reveal_strlit("dispatching");
    reveal_strlit("accepted");
    reveal_strlit("processed");
    reveal_strlit("unknown");
    reveal_strlit("cancelled");
    assert("pending"@.len() == 7);
    assert("dispatching"@.len() == 11);
    assert("accepted"@.len() == 8);
    assert("processed"@.len() == 9);
    assert("unknown"@.len() == 7);
    assert("cancelled"@.len() == 9);
    assert("pending"@[0] != "unknown"@[0]);
    assert("processed"@[0] != "cancelled"@[0]);
}

/// Purpose of a Task.
#[derive(Debug, Clone, Copy, PartialEq, Eq, Structural)]
pub enum TaskRole {
    /// Changes the repository.
    Implementation,
    /// Gathers facts.
    Investigation,
    /// Reviews a Result.
    Review,
    /// Verifies a Result.
    Verification,
    /// Anything else.
    Other,
}

impl TaskRole {
    /// Persisted name.
    pub open spec fn name(self) -> Seq<char> {
        match self {
            TaskRole::Implementation => "implementation"@,
            TaskRole::Investigation => "investigation"@,
            TaskRole::Review => "review"@,
            TaskRole::Verification => "verification"@,
            TaskRole::Other => "other"@,
        }
    }
}

/// Persisted name.
pub fn task_role_as_str(value: TaskRole) -> (r: &'static str)
    ensures
        r@ == value.name(),
{
    match value {
        TaskRole::Implementation => "implementation",
        TaskRole::Investigation => "investigation",
        TaskRole::Review => "review",
        TaskRole::Verification => "verification",
        TaskRole::Other => "other",
    }
}

/// The variant of a persisted name.
pub fn task_role_from_str(value: &str) -> (r: Result<TaskRole, CoordinatorError>)
    ensures
        match r {
            Ok(v) => v.name() == value@,
            Err(e) => {
                &&& e@ == unknown_name("unknown Task role `"@, value@)
                &&& forall|v: TaskRole| v.name() != value@
            },
        },
{
    if same_text(value, "implementation") {
        Ok(TaskRole::Implementation)
    } else if same_text(value, "investigation") {
        Ok(TaskRole::Investigation)
    } else if same_text(value, "review") {
        Ok(TaskRole::Review)
    } else if same_text(value, "verification") {
        Ok(TaskRole::Verification)
    } else if same_text(value, "other") {
        Ok(TaskRole::Other)
    } else {
        Err(unknown("unknown Task role `", value))
    }
}

/// No two variants of [`TaskRole`] share a persisted name:
/// reading a written name gives the variant back.
pub proof fn task_role_names_differ(a: TaskRole, b: TaskRole)
    requires
        a.name() == b.name(),
    ensures
        a == b,
{
    reveal_strlit("implementation");
    reveal_strlit("investigation");
    reveal_strlit("review");
    reveal_strlit("verification");
    reveal_strlit("other");
    assert("implementation"@.len() == 14);
    assert("investigation"@.len() == 13);
    assert("review"@.len() == 6);
    assert("verification"@.len() == 12);
    assert("other"@.len() == 5);
}

/// Requested reuse of a native Session.
#[derive(Debug, Clone, Copy, PartialEq, Eq, Structural)]
pub enum SessionReusePolicy {
    /// Only the named Session will do.
    Required,
    /// Reuse when compatible.
    Prefer,
    /// Never reuse a Session that executed a Task.
    Fresh,
    /// Chosen from role and relation.
    Auto,
}

impl SessionReusePolicy {
    /// Persisted name.
    pub open spec fn name(self) -> Seq<char> {
        match self {
            SessionReusePolicy::Required => "required"@,
            SessionReusePolicy::Prefer => "prefer"@,
            SessionReusePolicy::Fresh => "fresh"@,
            SessionReusePolicy::Auto => "auto"@,
        }
    }
}

/// Persisted name.
pub fn session_reuse_policy_as_str(value: SessionReusePolicy) -> (r: &'static str)
    ensures
        r@ == value.name(),
{
    match value {
        SessionReusePolicy::Required => "required",
        SessionReusePolicy::Prefer => "prefer",
        SessionReusePolicy::Fresh => "fresh",
        SessionReusePolicy::Auto => "auto",
    }
}

/// The variant of a persisted name.
pub fn session_reuse_policy_from_str(value: &str) -> (r: Result<
    SessionReusePolicy,
    CoordinatorError,
>)
    ensures
        match r {
            Ok(v) => v.name() == value@,
            Err(e) => {
                &&& e@ == unknown_name("unknown Session reuse policy `"@, value@)
                &&& forall|v: SessionReusePolicy| v.name() != value@
            },
        },
{
    if same_text(value, "required") {
        Ok(SessionReusePolicy::Required)
    } else if same_text(value, "prefer") {
        Ok(SessionReusePolicy::Prefer)
    } else if same_text(value, "fresh") {
        Ok(SessionReusePolicy::Fresh)
    } else if same_text(value, "auto") {
        Ok(SessionReusePolicy::Auto)
    } else {
        Err(unknown("unknown Session reuse policy `", value))
    }
}

/// No two variants of [`SessionReusePolicy`] share a persisted name:
/// reading a written name gives the variant back.
pub proof fn session_reuse_policy_names_differ(a: SessionReusePolicy, b: SessionReusePolicy)
    requires
        a.name() == b.name(),
    ensures
        a == b,
{
    reveal_strlit("required");
    reveal_strlit("prefer");
    reveal_strlit("fresh");
    reveal_strlit("auto");
    assert("required"@.len() == 8);
    assert("prefer"@.len() == 6);
    assert("fresh"@.len() == 5);
    assert("auto"@.len() == 4);
}

/// Provider-neutral health of a native Session.
#[derive(Debug, Clone, Copy, PartialEq, Eq, Structural)]
pub enum NativeSessionHealth {
    /// No pressure observed.
    Healthy,
    /// The context window is filling up.
    ContextPressure,
    /// The context was compacted.
    Compacted,
    /// The native protocol state is not known.
    Ambiguous,
    /// The native Session failed.
    Failed,
}

impl NativeSessionHealth {
    /// Persisted name.
    pub open spec fn name(self) -> Seq<char> {
        match self {
            NativeSessionHealth::Healthy => "healthy"@,
            NativeSessionHealth::ContextPressure => "context_pressure"@,
            NativeSessionHealth::Compacted => "compacted"@,
            NativeSessionHealth::Ambiguous => "ambiguous"@,
            NativeSessionHealth::Failed => "failed"@,
        }
    }
}

/// Persisted name.
pub fn native_session_health_as_str(value: NativeSessionHealth) -> (r: &'static str)
    ensures
        r@ == value.name(),
{
    match value {
        NativeSessionHealth::Healthy => "healthy",
        NativeSessionHealth::ContextPressure => "context_pressure",
        NativeSessionHealth::Compacted => "compacted",
        NativeSessionHealth::Ambiguous => "ambiguous",
        NativeSessionHealth::Failed => "failed",
    }
}

/// The variant of a persisted name.
pub fn native_session_health_from_str(value: &str) -> (r: Result<
    NativeSessionHealth,
    CoordinatorError,
>)
    ensures
        match r {
            Ok(v) => v.name() == value@,
            Err(e) => {
                &&& e@ == unknown_name("unknown native Session health `"@, value@)
                &&& forall|v: NativeSessionHealth| v.name() != value@
            },
        },
{
    if same_text(value, "healthy") {
        Ok(NativeSessionHealth::Healthy)
    } else if same_text(value, "context_pressure") {
        Ok(NativeSessionHealth::ContextPressure)
    } else if same_text(value, "compacted") {
        Ok(NativeSessionHealth::Compacted)
    } else if same_text(value, "ambiguous") {
        Ok(NativeSessionHealth::Ambiguous)
    } else if same_text(value, "failed") {
        Ok(NativeSessionHealth::Failed)
    } else {
        Err(unknown("unknown native Session health `", value))
    }
}

/// No two variants of [`NativeSessionHealth`] share a persisted name:
/// reading a written name gives the variant back.
pub proof fn native_session_health_names_differ(a: NativeSessionHealth, b: NativeSessionHealth)
    requires
        a.name() == b.name(),
    ensures
        a == b,
{
    reveal_strlit("healthy");
    reveal_strlit("context_pressure");
    reveal_strlit("compacted");
    reveal_strlit("ambiguous");
    reveal_strlit("failed");
    assert("healthy"@.len() == 7);
    assert("context_pressure"@.len() == 16);
    assert("compacted"@.len() == 9);
    assert("ambiguous"@.len() == 9);
    assert("failed"@.len() == 6);
    assert("compacted"@[0] != "ambiguous"@[0]);
}

/// When repository evidence is captured.
#[derive(Debug, Clone, Copy, PartialEq, Eq, Structural)]
pub enum ObservationCheckpoint {
    /// Baseline before native dispatch.
    BeforeDispatch,
    /// After a successful turn.
    Result,
    /// After cooperative cancellation.
    Cancel,
    /// After a failed turn or Host.
    Failure,
    /// Before Approval.
    Approval,
    /// Before a Hold is cleared.
    HoldClear,
}

impl ObservationCheckpoint {
    /// Persisted name.
    pub open spec fn name(self) -> Seq<char> {
        match self {
            ObservationCheckpoint::BeforeDispatch => "before_dispatch"@,
            ObservationCheckpoint::Result => "result"@,
            ObservationCheckpoint::Cancel => "cancel"@,
            ObservationCheckpoint::Failure => "failure"@,
            ObservationCheckpoint::Approval => "approval"@,
            ObservationCheckpoint::HoldClear => "hold_clear"@,
        }
    }
}

/// Persisted name.
pub fn observation_checkpoint_name(value: ObservationCheckpoint) -> (r: &'static str)
    ensures
        r@ == value.name(),
{
    match value {
        ObservationCheckpoint::BeforeDispatch => "before_dispatch",
        ObservationCheckpoint::Result => "result",
        ObservationCheckpoint::Cancel => "cancel",
        ObservationCheckpoint::Failure => "failure",
        ObservationCheckpoint::Approval => "approval",
        ObservationCheckpoint::HoldClear => "hold_clear",
    }
}

/// The checkpoint with a name.
pub fn observation_checkpoint_named(name: &str) -> (r: Option<ObservationCheckpoint>)
    ensures
        match r {
            Some(v) => v.name() == name@,
            None => forall|v: ObservationCheckpoint| v.name() != name@,
        },
{
    if same_text(name, "before_dispatch") {
        Some(ObservationCheckpoint::BeforeDispatch)
    } else if same_text(name, "result") {
        Some(ObservationCheckpoint::Result)
    } else if same_text(name, "cancel") {
        Some(ObservationCheckpoint::Cancel)
    } else if same_text(name, "failure") {
        Some(ObservationCheckpoint::Failure)
    } else if same_text(name, "approval") {
        Some(ObservationCheckpoint::Approval)
    } else if same_text(name, "hold_clear") {
        Some(ObservationCheckpoint::HoldClear)
    } else {
        None
    }
}

/// No two variants of [`ObservationCheckpoint`] share a persisted name:
/// reading a written name gives the variant back.
pub proof fn observation_checkpoint_names_differ(a: ObservationCheckpoint, b: ObservationCheckpoint)
    requires
        a.name() == b.name(),
    ensures
        a == b,
{
    reveal_strlit("before_dispatch");
    reveal_strlit("result");
    reveal_strlit("cancel");
    reveal_strlit("failure");
    reveal_strlit("approval");
    reveal_strlit("hold_clear");
    assert("before_dispatch"@.len() == 15);
    assert("result"@.len() == 6);
    assert("cancel"@.len() == 6);
    assert("failure"@.len() == 7);
    assert("approval"@.len() == 8);
    assert("hold_clear"@.len() == 10);
    assert("result"@[0] != "cancel"@[0]);
}

/// Logical dependency readiness, independent of native Task execution.
#[derive(Debug, Clone, Copy, PartialEq, Eq, Structural)]
pub enum TaskSchedulingState {
    /// At least one declared dependency is not satisfied.
    Blocked,
    /// Every declared dependency is satisfied; capacity admission may still wait.
    Ready,
}

impl TaskSchedulingState {
    /// Persisted name.
    pub open spec fn name(self) -> Seq<char> {
        match self {
            TaskSchedulingState::Blocked => "blocked"@,
            TaskSchedulingState::Ready => "ready"@,
        }
    }

    /// Persisted name.
    pub fn as_str(self) -> (r: &'static str)
        ensures
            r@ == self.name(),
    {
        scheduling_state_name(self)
    }

    /// The variant of a persisted name.
    pub fn from_str(value: &str) -> (r: Result<TaskSchedulingState, CoordinatorError>)
        ensures
            match r {
                Ok(v) => v.name() == value@,
                Err(e) => {
                    &&& e@ == unknown_name("unknown Task scheduling state `"@, value@)
                    &&& forall|v: TaskSchedulingState| v.name() != value@
                },
            },
    {
        scheduling_state_from_str(value)
    }
}

/// Persisted name.
pub fn scheduling_state_name(value: TaskSchedulingState) -> (r: &'static str)
    ensures
        r@ == value.name(),
{
    match value {
        TaskSchedulingState::Blocked => "blocked",
        TaskSchedulingState::Ready => "ready",
    }
}

/// The variant of a persisted name.
pub fn scheduling_state_from_str(value: &str) -> (r: Result<TaskSchedulingState, CoordinatorError>)
    ensures
        match r {
            Ok(v) => v.name() == value@,
            Err(e) => {
                &&& e@ == unknown_name("unknown Task scheduling state `"@, value@)
                &&& forall|v: TaskSchedulingState| v.name() != value@
            },
        },
{
    if same_text(value, "blocked") {
        Ok(TaskSchedulingState::Blocked)
    } else if same_text(value, "ready") {
        Ok(TaskSchedulingState::Ready)
    } else {
        Err(unknown("unknown Task scheduling state `", value))
    }
}

/// No two variants of [`TaskSchedulingState`] share a persisted name:
/// reading a written name gives the variant back.
pub proof fn task_scheduling_state_names_differ(a: TaskSchedulingState, b: TaskSchedulingState)
    requires
        a.name() == b.name(),
    ensures
        a == b,
{
    reveal_strlit("blocked");
    reveal_strlit("ready");
    assert("blocked"@.len() == 7);
    assert("ready"@.len() == 5);
}

/// Durable Task lifecycle state.
#[derive(Debug, Clone, Copy, PartialEq, Eq, Structural)]
pub enum TaskState {
    /// Accepted and waiting for eligibility.
    Queued,
    /// Delivery attempt is in progress.
    Dispatching,
    /// Worker is executing.
    Working,
    /// Worker asked a blocking Question.
    Waiting,
    /// Result awaits Supervisor decision.
    Reviewing,
    /// Cancellation is in progress.
    Cancelling,
    /// Provider acceptance is ambiguous.
    DeliveryUnknown,
    /// Supervisor accepted the Result and repository state.
    Approved,
    /// Task was cancelled.
    Cancelled,
    /// Task failed.
    Failed,
}

impl TaskState {
    /// Persisted name.
    pub open spec fn name(self) -> Seq<char> {
        match self {
            TaskState::Queued => "queued"@,
            TaskState::Dispatching => "dispatching"@,
            TaskState::Working => "working"@,
            TaskState::Waiting => "waiting"@,
            TaskState::Reviewing => "reviewing"@,
            TaskState::Cancelling => "cancelling"@,
            TaskState::DeliveryUnknown => "delivery_unknown"@,
            TaskState::Approved => "approved"@,
            TaskState::Cancelled => "cancelled"@,
            TaskState::Failed => "failed"@,
        }
    }

    /// Persisted name.
    pub fn as_str(self) -> (r: &'static str)
        ensures
            r@ == self.name(),
    {
        task_state_name(self)
    }

    /// The variant of a persisted name.
    pub fn from_str(value: &str) -> (r: Result<TaskState, CoordinatorError>)
        ensures
            match r {
                Ok(v) => v.name() == value@,
                Err(e) => {
                    &&& e@ == unknown_name("unknown Task state `"@, value@)
                    &&& forall|v: TaskState| v.name() != value@
                },
            },
    {
        task_state_from_str(value)
    }
}

/// Persisted name.
pub fn task_state_name(value: TaskState) -> (r: &'static str)
    ensures
        r@ == value.name(),
{
    match value {
        TaskState::Queued => "queued",
        TaskState::Dispatching => "dispatching",
        TaskState::Working => "working",
        TaskState::Waiting => "waiting",
        TaskState::Reviewing => "reviewing",
        TaskState::Cancelling => "cancelling",
        TaskState::DeliveryUnknown => "delivery_unknown",
        TaskState::Approved => "approved",
        TaskState::Cancelled => "cancelled",
        TaskState::Failed => "failed",
    }
}

/// The variant of a persisted name.
pub fn task_state_from_str(value: &str) -> (r: Result<TaskState, CoordinatorError>)
    ensures
        match r {
            Ok(v) => v.name() == value@,
            Err(e) => {
                &&& e@ == unknown_name("unknown Task state `"@, value@)
                &&& forall|v: TaskState| v.name() != value@
            },
        },
{
    if same_text(value, "queued") {
        Ok(TaskState::Queued)
    } else if same_text(value, "dispatching") {
        Ok(TaskState::Dispatching)
    } else if same_text(value, "working") {
        Ok(TaskState::Working)
    } else if same_text(value, "waiting") {
        Ok(TaskState::Waiting)
    } else if same_text(value, "reviewing") {
        Ok(TaskState::Reviewing)
    } else if same_text(value, "cancelling") {
        Ok(TaskState::Cancelling)
    } else if same_text(value, "delivery_unknown") {
        Ok(TaskState::DeliveryUnknown)
    } else if same_text(value, "approved") {
        Ok(TaskState::Approved)
    } else if same_text(value, "cancelled") {
        Ok(TaskState::Cancelled)
    } else if same_text(value, "failed") {
        Ok(TaskState::Failed)
    } else {
        Err(unknown("unknown Task state `", value))
    }
}

/// No two variants of [`TaskState`] share a persisted name:
/// reading a written name gives the variant back.
pub proof fn task_state_names_differ(a: TaskState, b: TaskState)
    requires
        a.name() == b.name(),
    ensures
        a == b,
{
    reveal_strlit("queued");
    reveal_strlit("dispatching");
    reveal_strlit("working");
    reveal_strlit("waiting");
    reveal_strlit("reviewing");
    reveal_strlit("cancelling");
    reveal_strlit("delivery_unknown");
    reveal_strlit("approved");
    reveal_strlit("cancelled");
    reveal_strlit("failed");
    assert("queued"@.len() == 6);
    assert("dispatching"@.len() == 11);
    assert("working"@.len() == 7);
    assert("waiting"@.len() == 7);
    assert("reviewing"@.len() == 9);
    assert("cancelling"@.len() == 10);
    assert("delivery_unknown"@.len() == 16);
    assert("approved"@.len() == 8);
    assert("cancelled"@.len() == 9);
    assert("failed"@.len() == 6);
    assert("queued"@[0] != "failed"@[0]);
    assert("working"@[1] != "waiting"@[1]);
    assert("reviewing"@[0] != "cancelled"@[0]);
}

/// Presence of a Harness Session.
#[derive(Debug, Clone, Copy, PartialEq, Eq, Structural)]
pub enum Presence {
    /// The pane Host is not ready yet.
    Starting,
    /// Ready for delivery.
    Online,
    /// The Host transport was lost.
    Disconnected,
    /// A reopen attempt is reserved.
    Reconnecting,
    /// No live Host.
    Offline,
    /// Ended cleanly.
    Stopped,
    /// Ended by a failure.
    Failed,
}

impl Presence {
    /// Persisted name.
    pub open spec fn name(self) -> Seq<char> {
        match self {
            Presence::Starting => "starting"@,
            Presence::Online => "online"@,
            Presence::Disconnected => "disconnected"@,
            Presence::Reconnecting => "reconnecting"@,
            Presence::Offline => "offline"@,
            Presence::Stopped => "stopped"@,
            Presence::Failed => "failed"@,
        }
    }
}

/// Persisted name.
pub fn presence_name(value: Presence) -> (r: &'static str)
    ensures
        r@ == value.name(),
{
    match value {
        Presence::Starting => "starting",
        Presence::Online => "online",
        Presence::Disconnected => "disconnected",
        Presence::Reconnecting => "reconnecting",
        Presence::Offline => "offline",
        Presence::Stopped => "stopped",
        Presence::Failed => "failed",
    }
}

/// The variant of a persisted name.
pub fn presence_from_str(value: &str) -> (r: Result<Presence, CoordinatorError>)
    ensures
        match r {
            Ok(v) => v.name() == value@,
            Err(e) => {
                &&& e@ == unknown_name("unknown Session presence `"@, value@)
                &&& forall|v: Presence| v.name() != value@
            },
        },
{
    if same_text(value, "starting") {
        Ok(Presence::Starting)
    } else if same_text(value, "online") {
        Ok(Presence::Online)
    } else if same_text(value, "disconnected") {
        Ok(Presence::Disconnected)
    } else if same_text(value, "reconnecting") {
        Ok(Presence::Reconnecting)
    } else if same_text(value, "offline") {
        Ok(Presence::Offline)
    } else if same_text(value, "stopped") {
        Ok(Presence::Stopped)
    } else if same_text(value, "failed") {
        Ok(Presence::Failed)
    } else {
        Err(unknown("unknown Session presence `", value))
    }
}

/// No two variants of [`Presence`] share a persisted name:
/// reading a written name gives the variant back.
pub proof fn presence_names_differ(a: Presence, b: Presence)
    requires
        a.name() == b.name(),
    ensures
        a == b,
{
    reveal_strlit("starting");
    reveal_strlit("online");
    reveal_strlit("disconnected");
    reveal_strlit("reconnecting");
    reveal_strlit("offline");
    reveal_strlit("stopped");
    reveal_strlit("failed");
    assert("starting"@.len() == 8);
    assert("online"@.len() == 6);
    assert("disconnected"@.len() == 12);
    assert("reconnecting"@.len() == 12);
    assert("offline"@.len() == 7);
    assert("stopped"@.len() == 7);
    assert("failed"@.len() == 6);
    assert("online"@[0] != "failed"@[0]);
    assert("disconnected"@[0] != "reconnecting"@[0]);
    assert("offline"@[0] != "stopped"@[0]);
}

/// Activity of a Harness Session.
#[derive(Debug, Clone, Copy, PartialEq, Eq, Structural)]
pub enum Activity {
    /// Startup is in progress.
    Starting,
    /// No active turn.
    Idle,
    /// Shutdown was requested.
    Stopping,
    /// The Host failed.
    Failed,
}

impl Activity {
    /// Persisted name.
    pub open spec fn name(self) -> Seq<char> {
        match self {
            Activity::Starting => "starting"@,
            Activity::Idle => "idle"@,
            Activity::Stopping => "stopping"@,
            Activity::Failed => "failed"@,
        }
    }
}

/// Persisted name.
pub fn activity_name(value: Activity) -> (r: &'static str)
    ensures
        r@ == value.name(),
{
    match value {
        Activity::Starting => "starting",
        Activity::Idle => "idle",
        Activity::Stopping => "stopping",
        Activity::Failed => "failed",
    }
}

/// The variant of a persisted name.
pub fn activity_from_str(value: &str) -> (r: Result<Activity, CoordinatorError>)
    ensures
        match r {
            Ok(v) => v.name() == value@,
            Err(e) => {
                &&& e@ == unknown_name("unknown Session activity `"@, value@)
                &&& forall|v: Activity| v.name() != value@
            },
        },
{
    if same_text(value, "starting") {
        Ok(Activity::Starting)
    } else if same_text(value, "idle") {
        Ok(Activity::Idle)
    } else if same_text(value, "stopping") {
        Ok(Activity::Stopping)
    } else if same_text(value, "failed") {
        Ok(Activity::Failed)
    } else {
        Err(unknown("unknown Session activity `", value))
    }
}

/// No two variants of [`Activity`] share a persisted name:
/// reading a written name gives the variant back.
pub proof fn activity_names_differ(a: Activity, b: Activity)
    requires
        a.name() == b.name(),
    ensures
        a == b,
{
    reveal_strlit("starting");
    reveal_strlit("idle");
    reveal_strlit("stopping");
    reveal_strlit("failed");
    assert("starting"@.len() == 8);
    assert("idle"@.len() == 4);
    assert("stopping"@.len() == 8);
    assert("failed"@.len() == 6);
    assert("starting"@[2] != "stopping"@[2]);
}

/// Repository access of a Task.
#[derive(Debug, Clone, Copy, PartialEq, Eq, Structural)]
pub enum RepositoryAccess {
    /// May change the worktree; needs the worktree lease.
    Mutating,
    /// Only reads the worktree.
    ReadOnly,
}

/// Explicit Codex App Server approval policy.
#[derive(Debug, Clone, Copy, PartialEq, Eq, Structural)]
pub enum CodexApprovalPolicy {
    /// Ask for anything outside the trusted set.
    Untrusted,
    /// Ask after a failure.
    OnFailure,
    /// Ask when the model requests it.
    OnRequest,
    /// Never ask.
    Never,
}

/// Explicit Codex App Server sandbox mode.
#[derive(Debug, Clone, Copy, PartialEq, Eq, Structural)]
pub enum CodexSandboxMode {
    /// No writes.
    ReadOnly,
    /// Writes inside the workspace.
    WorkspaceWrite,
    /// No sandbox.
    DangerFullAccess,
}

} // verus!

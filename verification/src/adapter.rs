//! Provider-neutral Harness Adapter vocabulary and pinned protocol frame classifiers.
use vstd::prelude::*;

use crate::contract::{CodexApprovalPolicy, CodexSandboxMode, HarnessKind, HarnessTier};
use crate::identity::{AttachmentId, HarnessSessionId, TaskId};
use crate::json::{
    copy_value, get_bool, get_member, get_signed, get_text, is_number, is_object, json_of, member,
    null_value, parse_json, text_in, tree, JsonTree,
};
use crate::text::{
    chars_of, ends_with, has_suffix, join, join3, optional_text, part_of, same_text,
    signed_decimal, signed_text,
};

verus! {

/// OMP version verified by the compatibility contract.
pub const OMP_VERSION_OUTPUT: &'static str = "omp/17.0.2";

/// Codex CLI version verified by the compatibility contract.
pub const CODEX_VERSION_OUTPUT: &'static str = "codex-cli 0.144.5";

// ---------------------------------------------------------------------------------------------
// Errors
// ---------------------------------------------------------------------------------------------

/// Provider Adapter failure with enough structure for stable Coordinator mapping.
#[derive(Debug)]
#[allow(inconsistent_fields)]
pub enum AdapterError {
    /// A provider emitted malformed JSONL.
    InvalidJson { kind: HarnessKind, source: String },
    /// A valid JSON value did not match the pinned provider framing contract.
    InvalidFrame { kind: HarnessKind, message: String },
    /// The installed provider version has not been compatibility-tested.
    UnsupportedVersion { kind: HarnessKind, expected: String, actual: String },
    /// Provider I/O or lifecycle operation failed.
    Operation { kind: HarnessKind, message: String },
    /// A provider request failed after a write was attempted, so replay is unsafe.
    DeliveryAmbiguous { kind: HarnessKind, message: String },
}

/// What an [`AdapterError`] says.
#[allow(inconsistent_fields)]
pub enum AdapterFault {
    InvalidJson { kind: HarnessKind, source: Seq<char> },
    InvalidFrame { kind: HarnessKind, message: Seq<char> },
    UnsupportedVersion { kind: HarnessKind, expected: Seq<char>, actual: Seq<char> },
    Operation { kind: HarnessKind, message: Seq<char> },
    DeliveryAmbiguous { kind: HarnessKind, message: Seq<char> },
}

impl View for AdapterError {
    type V = AdapterFault;

    open spec fn view(&self) -> AdapterFault {
        match self {
            AdapterError::InvalidJson { kind, source } => AdapterFault::InvalidJson {
                kind: *kind,
                source: source@,
            },
            AdapterError::InvalidFrame { kind, message } => AdapterFault::InvalidFrame {
                kind: *kind,
                message: message@,
            },
            AdapterError::UnsupportedVersion { kind, expected, actual } => {
                AdapterFault::UnsupportedVersion {
                    kind: *kind,
                    expected: expected@,
                    actual: actual@,
                }
            },
            AdapterError::Operation { kind, message } => AdapterFault::Operation {
                kind: *kind,
                message: message@,
            },
            AdapterError::DeliveryAmbiguous { kind, message } => AdapterFault::DeliveryAmbiguous {
                kind: *kind,
                message: message@,
            },
        }
    }
}

/// The name of a provider in diagnostics.
pub open spec fn provider_name(kind: HarnessKind) -> Seq<char> {
    match kind {
        HarnessKind::Omp => "Omp"@,
        HarnessKind::Codex => "Codex"@,
    }
}

/// The name of a provider in diagnostics.
pub fn provider_text(kind: HarnessKind) -> (r: &'static str)
    ensures
        r@ == provider_name(kind),
{
    match kind {
        HarnessKind::Omp => "Omp",
        HarnessKind::Codex => "Codex",
    }
}

/// The diagnostic text of a fault.
pub open spec fn fault_text(fault: AdapterFault) -> Seq<char> {
    match fault {
        AdapterFault::InvalidJson { kind, source } => "invalid "@ + provider_name(kind)
            + " JSON frame: "@ + source,
        AdapterFault::InvalidFrame { kind, message } => "invalid "@ + provider_name(kind)
            + " protocol frame: "@ + message,
        AdapterFault::UnsupportedVersion { kind, expected, actual } => "unsupported "@
            + provider_name(kind) + " version output `"@ + actual + "`; expected `"@ + expected
            + "`"@,
        AdapterFault::Operation { kind, message } => provider_name(kind)
            + " adapter operation failed: "@ + message,
        AdapterFault::DeliveryAmbiguous { kind, message } => provider_name(kind)
            + " delivery acceptance is ambiguous: "@ + message,
    }
}

impl AdapterError {
    /// Whether the failed operation may already have reached the provider.
    pub fn provider_bytes_may_have_been_written(&self) -> (r: bool)
        ensures
            r == self@ is DeliveryAmbiguous,
    {
        match self {
            AdapterError::DeliveryAmbiguous { .. } => true,
            _ => false,
        }
    }

    /// The diagnostic text.
    pub fn text(&self) -> (r: String)
        ensures
            r@ == fault_text(self@),
    {
        match self {
            AdapterError::InvalidJson { kind, source } => {
                let mut r = join3("invalid ", provider_text(*kind), " JSON frame: ");
                r.append(source.as_str());
                r
            },
            AdapterError::InvalidFrame { kind, message } => {
                let mut r = join3("invalid ", provider_text(*kind), " protocol frame: ");
                r.append(message.as_str());
                r
            },
            AdapterError::UnsupportedVersion { kind, expected, actual } => {
                let mut r = join3("unsupported ", provider_text(*kind), " version output `");
                r.append(actual.as_str());
                r.append("`; expected `");
                r.append(expected.as_str());
                r.append("`");
                r
            },
            AdapterError::Operation { kind, message } => join3(
                provider_text(*kind),
                " adapter operation failed: ",
                message.as_str(),
            ),
            AdapterError::DeliveryAmbiguous { kind, message } => join3(
                provider_text(*kind),
                " delivery acceptance is ambiguous: ",
                message.as_str(),
            ),
        }
    }
}

/// A failed operation.
pub fn operation(kind: HarnessKind, message: String) -> (r: AdapterError)
    ensures
        r@ == (AdapterFault::Operation { kind, message: message@ }),
{
    AdapterError::Operation { kind, message }
}

/// A delivery whose acceptance is ambiguous.
pub fn delivery_ambiguous(kind: HarnessKind, message: String) -> (r: AdapterError)
    ensures
        r@ == (AdapterFault::DeliveryAmbiguous { kind, message: message@ }),
{
    AdapterError::DeliveryAmbiguous { kind, message }
}

fn invalid_frame(kind: HarnessKind, message: String) -> (r: AdapterError)
    ensures
        r@ == bad_frame(kind, message@),
{
    AdapterError::InvalidFrame { kind, message }
}

pub open spec fn bad_frame(kind: HarnessKind, message: Seq<char>) -> AdapterFault {
    AdapterFault::InvalidFrame { kind, message }
}

/// View of a result whose error is an [`AdapterError`].
pub open spec fn adapter_outcome<T>(r: Result<T, AdapterError>) -> Result<T, AdapterFault> {
    match r {
        Ok(v) => Ok(v),
        Err(e) => Err(e@),
    }
}

// ---------------------------------------------------------------------------------------------
// Vocabulary
// ---------------------------------------------------------------------------------------------

/// Features whose native semantics have been verified for one Adapter.
#[derive(Debug, Clone, Copy, PartialEq, Eq, Structural)]
pub struct AdapterCapabilities {
    /// One native session can execute sequential top-level Tasks.
    pub persistent_session: bool,
    /// Explicit Supervisor input can steer an active top-level turn.
    pub active_turn_steering: bool,
    /// Input can be queued inside the provider while a turn is active.
    pub active_turn_follow_up: bool,
    /// The provider exposes cooperative cancellation before forced shutdown.
    pub cooperative_cancellation: bool,
}

/// Provider-neutral configuration needed to start one Worker Harness process.
#[derive(Debug)]
pub struct HarnessStartSpec {
    /// Durable Coordinator Session being hosted.
    pub session_id: HarnessSessionId,
    /// Absolute pinned provider executable.
    pub executable: String,
    /// Registered live worktree used by the native Harness.
    pub cwd: String,
    /// Provider-owned files for this Harness Session.
    pub provider_state_dir: String,
    /// Explicit provider-native profile selection.
    pub provider_profile: Option<String>,
    /// Explicitly selected model, when the profile pins one.
    pub model: Option<String>,
    /// OMP configuration overlays; empty for Codex.
    pub config_overlays: Vec<String>,
    /// Whose tools the provider has to offer.
    pub tier: HarnessTier,
    /// Codex approval policy, which Codex requires.
    pub codex_approval_policy: Option<CodexApprovalPolicy>,
    /// Codex sandbox mode, which Codex requires.
    pub codex_sandbox_mode: Option<CodexSandboxMode>,
    /// Already-filtered environment values inherited by the provider.
    pub environment: Vec<(String, String)>,
}

/// Native identity established after successful provider startup.
#[derive(Debug)]
pub struct NativeSession {
    /// Provider session identity, if the provider exposes one.
    pub session_id: Option<String>,
    /// Persistent conversation identity, such as a Codex thread.
    pub thread_id: Option<String>,
    /// Effective provider working directory.
    pub cwd: String,
    /// Effective provider model, if reported.
    pub model: Option<String>,
}

/// Provider-independent delivery operation selected by the Coordinator.
#[derive(Debug, Clone, Copy, PartialEq, Eq, Structural)]
pub enum NativeDeliveryKind {
    /// Begin a new top-level native turn.
    StartTurn,
    /// Queue input for the same active native Task.
    FollowUp,
    /// Append explicit Supervisor input to a verified active turn.
    Steer,
}

/// Immutable Attachment resolved for provider delivery.
#[derive(Debug)]
pub struct ResolvedAttachment {
    /// Coordinator Attachment identity.
    pub id: AttachmentId,
    /// Verified immutable file path in Coordinator state.
    pub path: String,
    /// Recorded media type.
    pub media_type: String,
}

/// Fully authorized native input passed from the Coordinator to an Adapter.
#[derive(Debug)]
pub struct ResolvedDelivery {
    /// Unique host-generated provider request correlation.
    pub correlation: String,
    /// Task whose top-level conversation receives the input, absent for network Notifications.
    pub task_id: Option<TaskId>,
    /// Resolved provider operation.
    pub kind: NativeDeliveryKind,
    /// Prompt, Reply, Correction, or Notification text.
    pub text: String,
    /// Verified immutable Attachments available to the provider.
    pub attachments: Vec<ResolvedAttachment>,
}

/// Provider evidence that one delivery was accepted, not completed.
#[derive(Debug)]
pub struct NativeAcceptance {
    /// Correlation from [`ResolvedDelivery`].
    pub correlation: String,
    /// Provider-native turn identity when acceptance creates or identifies one.
    pub turn_id: Option<String>,
    /// Provider-native acceptance description suitable for durable evidence.
    pub evidence: String,
}

/// Coarse provider lifecycle exposed in snapshots.
#[derive(Debug, Clone, Copy, PartialEq, Eq, Structural)]
pub enum AdapterLifecycle {
    /// Process startup is not yet complete.
    Starting,
    /// Provider is online without an active top-level turn.
    Idle,
    /// Provider has an active top-level turn.
    Working,
    /// Cooperative or forced shutdown is underway.
    Stopping,
    /// Provider has stopped cleanly.
    Stopped,
    /// Provider can no longer safely receive delivery.
    Failed,
}

impl AdapterLifecycle {
    /// Persisted name.
    pub open spec fn name(self) -> Seq<char> {
        match self {
            AdapterLifecycle::Starting => "starting"@,
            AdapterLifecycle::Idle => "idle"@,
            AdapterLifecycle::Working => "working"@,
            AdapterLifecycle::Stopping => "stopping"@,
            AdapterLifecycle::Stopped => "stopped"@,
            AdapterLifecycle::Failed => "failed"@,
        }
    }

    /// Persisted name.
    pub fn as_str(self) -> (r: &'static str)
        ensures
            r@ == self.name(),
    {
        match self {
            AdapterLifecycle::Starting => "starting",
            AdapterLifecycle::Idle => "idle",
            AdapterLifecycle::Working => "working",
            AdapterLifecycle::Stopping => "stopping",
            AdapterLifecycle::Stopped => "stopped",
            AdapterLifecycle::Failed => "failed",
        }
    }
}

/// The lifecycle with a name.
pub fn lifecycle_named(name: &str) -> (r: Option<AdapterLifecycle>)
    ensures
        match r {
            Some(v) => v.name() == name@,
            None => forall|v: AdapterLifecycle| v.name() != name@,
        },
{
    if same_text(name, "starting") {
        Some(AdapterLifecycle::Starting)
    } else if same_text(name, "idle") {
        Some(AdapterLifecycle::Idle)
    } else if same_text(name, "working") {
        Some(AdapterLifecycle::Working)
    } else if same_text(name, "stopping") {
        Some(AdapterLifecycle::Stopping)
    } else if same_text(name, "stopped") {
        Some(AdapterLifecycle::Stopped)
    } else if same_text(name, "failed") {
        Some(AdapterLifecycle::Failed)
    } else {
        None
    }
}

/// Provider-neutral live state captured on demand.
#[derive(Debug)]
pub struct AdapterSnapshot {
    /// Current coarse lifecycle.
    pub lifecycle: AdapterLifecycle,
    /// Provider-native Session identity, when reported.
    pub session_id: Option<String>,
    /// Persistent provider thread or conversation identity.
    pub thread_id: Option<String>,
    /// Active top-level turn identity, when reported.
    pub active_turn_id: Option<String>,
    /// Whether explicit steering is currently valid.
    pub steerable: bool,
    /// Provider-native queued input count, when available.
    pub queued_input_count: Option<u32>,
    /// Effective model, when reported.
    pub model: Option<String>,
}

/// Terminal status of one top-level native turn.
#[derive(Debug, Clone, Copy, PartialEq, Eq, Structural)]
pub enum NativeTurnStatus {
    /// Provider reported normal completion.
    Completed,
    /// Provider reported cooperative interruption.
    Interrupted,
    /// Provider reported terminal failure.
    Failed,
}

/// Top-level provider evidence normalized for the Coordinator Core.
#[derive(Debug)]
#[allow(inconsistent_fields)]
pub enum AdapterEvent {
    /// Provider startup established its native identity.
    SessionStarted(NativeSession),
    /// A correlated top-level turn began.
    TurnStarted { turn_id: Option<String> },
    /// Human-readable top-level transcript content.
    Transcript { text: String },
    /// Display-only command, tool, or file-change activity.
    Activity { summary: String },
    /// Provider requires native user input or approval handling.
    InputRequired { correlation: Option<String>, prompt: String },
    /// One top-level native turn settled.
    TurnCompleted { turn_id: Option<String>, status: NativeTurnStatus },
    /// Provider or transport failure invalidated the live Session.
    Failed { message: String },
    /// Provider process exited.
    Exited { exit_code: Option<i32> },
}

/// What an [`AdapterEvent`] says.
#[allow(inconsistent_fields)]
pub enum AdapterEventView {
    SessionStarted(NativeSessionView),
    TurnStarted { turn_id: Option<Seq<char>> },
    Transcript { text: Seq<char> },
    Activity { summary: Seq<char> },
    InputRequired { correlation: Option<Seq<char>>, prompt: Seq<char> },
    TurnCompleted { turn_id: Option<Seq<char>>, status: NativeTurnStatus },
    Failed { message: Seq<char> },
    Exited { exit_code: Option<i32> },
}

/// What a [`NativeSession`] says.
pub struct NativeSessionView {
    pub session_id: Option<Seq<char>>,
    pub thread_id: Option<Seq<char>>,
    pub cwd: Seq<char>,
    pub model: Option<Seq<char>>,
}

impl View for NativeSession {
    type V = NativeSessionView;

    open spec fn view(&self) -> NativeSessionView {
        NativeSessionView {
            session_id: optional_text(self.session_id),
            thread_id: optional_text(self.thread_id),
            cwd: self.cwd@,
            model: optional_text(self.model),
        }
    }
}

impl View for AdapterEvent {
    type V = AdapterEventView;

    open spec fn view(&self) -> AdapterEventView {
        match self {
            AdapterEvent::SessionStarted(native) => AdapterEventView::SessionStarted(native@),
            AdapterEvent::TurnStarted { turn_id } => AdapterEventView::TurnStarted {
                turn_id: optional_text(*turn_id),
            },
            AdapterEvent::Transcript { text } => AdapterEventView::Transcript { text: text@ },
            AdapterEvent::Activity { summary } => AdapterEventView::Activity { summary: summary@ },
            AdapterEvent::InputRequired { correlation, prompt } => {
                AdapterEventView::InputRequired {
                    correlation: optional_text(*correlation),
                    prompt: prompt@,
                }
            },
            AdapterEvent::TurnCompleted { turn_id, status } => AdapterEventView::TurnCompleted {
                turn_id: optional_text(*turn_id),
                status: *status,
            },
            AdapterEvent::Failed { message } => AdapterEventView::Failed { message: message@ },
            AdapterEvent::Exited { exit_code } => AdapterEventView::Exited {
                exit_code: *exit_code,
            },
        }
    }
}

/// Correlation identifier accepted by the pinned provider JSONL protocols.
#[derive(Debug)]
pub enum CorrelationId {
    /// String correlation used by OMP and accepted by Codex.
    String(String),
    /// Integer correlation accepted by Codex App Server.
    Number(i64),
}

/// What a [`CorrelationId`] is.
pub enum Correlation {
    Text(Seq<char>),
    Number(i64),
}

impl View for CorrelationId {
    type V = Correlation;

    open spec fn view(&self) -> Correlation {
        match self {
            CorrelationId::String(s) => Correlation::Text(s@),
            CorrelationId::Number(n) => Correlation::Number(*n),
        }
    }
}

/// The text of a correlation.
pub open spec fn correlation_text(c: Correlation) -> Seq<char> {
    match c {
        Correlation::Text(s) => s,
        Correlation::Number(n) => signed_decimal(n as int),
    }
}

impl CorrelationId {
    /// The text of the correlation.
    pub fn text(&self) -> (r: String)
        ensures
            r@ == correlation_text(self@),
    {
        match self {
            CorrelationId::String(s) => s.as_str().to_owned(),
            CorrelationId::Number(n) => signed_text(*n),
        }
    }
}

// ---------------------------------------------------------------------------------------------
// Members of frames
// ---------------------------------------------------------------------------------------------

/// A member that is a nonempty text, where it is there.
pub open spec fn optional_string(t: JsonTree, name: Seq<char>, kind: HarnessKind) -> Result<
    Option<Seq<char>>,
    AdapterFault,
> {
    match member(t, name) {
        None => Ok(None),
        Some(JsonTree::Text(s)) if s.len() > 0 => Ok(Some(s)),
        Some(_) => Err(bad_frame(kind, name + " must be a nonempty string"@)),
    }
}

/// A member that has to be a nonempty text.
pub open spec fn required_string(t: JsonTree, name: Seq<char>, kind: HarnessKind) -> Result<
    Seq<char>,
    AdapterFault,
> {
    match optional_string(t, name, kind) {
        Err(e) => Err(e),
        Ok(Some(s)) => Ok(s),
        Ok(None) => Err(bad_frame(kind, name + " is required"@)),
    }
}

/// The correlation that every OMP exchange has.
pub open spec fn omp_correlation(t: JsonTree) -> Result<Correlation, AdapterFault> {
    match member(t, "id"@) {
        None => Err(bad_frame(HarnessKind::Omp, "correlation id is required"@)),
        Some(JsonTree::Text(s)) if s.len() > 0 => Ok(Correlation::Text(s)),
        Some(_) => Err(
            bad_frame(HarnessKind::Omp, "correlation id must be a nonempty string"@),
        ),
    }
}

/// The correlation of a frame, where it has one.
pub open spec fn any_correlation(t: JsonTree, kind: HarnessKind) -> Result<
    Option<Correlation>,
    AdapterFault,
> {
    match member(t, "id"@) {
        None => Ok(None),
        Some(JsonTree::Text(s)) if s.len() > 0 => Ok(Some(Correlation::Text(s))),
        Some(JsonTree::Number { signed, .. }) => match signed {
            Some(n) => Ok(Some(Correlation::Number(n))),
            None => Err(bad_frame(kind, "correlation number must be an integer"@)),
        },
        Some(_) => Err(
            bad_frame(kind, "correlation id must be a nonempty string or integer"@),
        ),
    }
}

fn nonempty(value: &serde_json::Value) -> (r: Option<String>)
    ensures
        match r {
            Some(s) => text_in(tree(*value)) == Some(s@) && s@.len() > 0,
            None => match text_in(tree(*value)) {
                Some(s) => s.len() == 0,
                None => true,
            },
        },
{
    match get_text(value) {
        Some(s) => {
            let chars = chars_of(s.as_str());
            if chars.len() > 0 {
                Some(s)
            } else {
                None
            }
        },
        None => None,
    }
}

fn optional_nonempty_string(value: &serde_json::Value, name: &str, kind: HarnessKind) -> (r: Result<
    Option<String>,
    AdapterError,
>)
    ensures
        match (r, optional_string(tree(*value), name@, kind)) {
            (Ok(Some(s)), Ok(Some(t))) => s@ == t,
            (Ok(None), Ok(None)) => true,
            (Err(e), Err(f)) => e@ == f,
            _ => false,
        },
{
    match get_member(value, name) {
        None => Ok(None),
        Some(found) => match nonempty(found) {
            Some(s) => Ok(Some(s)),
            None => Err(invalid_frame(kind, join(name, " must be a nonempty string"))),
        },
    }
}

fn required_nonempty_string(value: &serde_json::Value, name: &str, kind: HarnessKind) -> (r: Result<
    String,
    AdapterError,
>)
    ensures
        match (r, required_string(tree(*value), name@, kind)) {
            (Ok(s), Ok(t)) => s@ == t,
            (Err(e), Err(f)) => e@ == f,
            _ => false,
        },
{
    match optional_nonempty_string(value, name, kind) {
        Err(e) => Err(e),
        Ok(Some(s)) => Ok(s),
        Ok(None) => Err(invalid_frame(kind, join(name, " is required"))),
    }
}

fn required_omp_correlation(value: &serde_json::Value) -> (r: Result<CorrelationId, AdapterError>)
    ensures
        match (r, omp_correlation(tree(*value))) {
            (Ok(c), Ok(t)) => c@ == t,
            (Err(e), Err(f)) => e@ == f,
            _ => false,
        },
{
    match get_member(value, "id") {
        None => Err(invalid_frame(HarnessKind::Omp, "correlation id is required".to_owned())),
        Some(found) => match nonempty(found) {
            Some(s) => Ok(CorrelationId::String(s)),
            None => Err(
                invalid_frame(
                    HarnessKind::Omp,
                    "correlation id must be a nonempty string".to_owned(),
                ),
            ),
        },
    }
}

fn optional_correlation(value: &serde_json::Value, kind: HarnessKind) -> (r: Result<
    Option<CorrelationId>,
    AdapterError,
>)
    ensures
        match (r, any_correlation(tree(*value), kind)) {
            (Ok(Some(c)), Ok(Some(t))) => c@ == t,
            (Ok(None), Ok(None)) => true,
            (Err(e), Err(f)) => e@ == f,
            _ => false,
        },
{
    match get_member(value, "id") {
        None => Ok(None),
        Some(found) => {
            if is_number(found) {
                return match get_signed(found) {
                    Some(n) => Ok(Some(CorrelationId::Number(n))),
                    None => Err(
                        invalid_frame(kind, "correlation number must be an integer".to_owned()),
                    ),
                };
            }
            match nonempty(found) {
                Some(s) => Ok(Some(CorrelationId::String(s))),
                None => Err(
                    invalid_frame(
                        kind,
                        "correlation id must be a nonempty string or integer".to_owned(),
                    ),
                ),
            }
        },
    }
}

// ---------------------------------------------------------------------------------------------
// OMP frames
// ---------------------------------------------------------------------------------------------

/// Classified OMP RPC output frame from the pinned protocol.
#[derive(Debug)]
#[allow(inconsistent_fields)]
pub enum OmpFrame {
    /// Process completed initialization and is ready for commands.
    Ready,
    /// Correlated command response; success does not mean turn completion.
    Response { id: CorrelationId, command: String, result: Result<serde_json::Value, String> },
    /// Provider asks the Host to execute one registered Coordinator tool.
    HostToolCall {
        id: CorrelationId,
        tool_call_id: String,
        tool_name: String,
        arguments: serde_json::Value,
    },
    /// Provider asks the Host to cancel a pending host tool call.
    HostToolCancel { id: CorrelationId, target_id: String },
    /// Extension UI traffic requiring Host handling or durable evidence.
    ExtensionUiRequest { id: CorrelationId, method: String, payload: serde_json::Value },
    /// OMP session event, including `agent_end` and opaque native-child events.
    SessionEvent { event_type: String, payload: serde_json::Value },
}

/// What an [`OmpFrame`] says.
#[allow(inconsistent_fields)]
pub enum OmpFrameView {
    Ready,
    Response { id: Correlation, command: Seq<char>, result: Result<JsonTree, Seq<char>> },
    HostToolCall {
        id: Correlation,
        tool_call_id: Seq<char>,
        tool_name: Seq<char>,
        arguments: JsonTree,
    },
    HostToolCancel { id: Correlation, target_id: Seq<char> },
    ExtensionUiRequest { id: Correlation, method: Seq<char>, payload: JsonTree },
    SessionEvent { event_type: Seq<char>, payload: JsonTree },
}

impl View for OmpFrame {
    type V = OmpFrameView;

    open spec fn view(&self) -> OmpFrameView {
        match self {
            OmpFrame::Ready => OmpFrameView::Ready,
            OmpFrame::Response { id, command, result } => OmpFrameView::Response {
                id: id@,
                command: command@,
                result: match *result {
                    Ok(value) => Ok(tree(value)),
                    Err(message) => Err(message@),
                },
            },
            OmpFrame::HostToolCall { id, tool_call_id, tool_name, arguments } => {
                OmpFrameView::HostToolCall {
                    id: id@,
                    tool_call_id: tool_call_id@,
                    tool_name: tool_name@,
                    arguments: tree(*arguments),
                }
            },
            OmpFrame::HostToolCancel { id, target_id } => OmpFrameView::HostToolCancel {
                id: id@,
                target_id: target_id@,
            },
            OmpFrame::ExtensionUiRequest { id, method, payload } => {
                OmpFrameView::ExtensionUiRequest {
                    id: id@,
                    method: method@,
                    payload: tree(*payload),
                }
            },
            OmpFrame::SessionEvent { event_type, payload } => OmpFrameView::SessionEvent {
                event_type: event_type@,
                payload: tree(*payload),
            },
        }
    }
}

/// The answer to a command.
pub open spec fn omp_response(t: JsonTree) -> Result<OmpFrameView, AdapterFault> {
    match omp_correlation(t) {
        Err(e) => Err(e),
        Ok(id) => match required_string(t, "command"@, HarnessKind::Omp) {
            Err(e) => Err(e),
            Ok(command) => match member(t, "success"@) {
                Some(JsonTree::Bool(true)) => Ok(
                    OmpFrameView::Response {
                        id,
                        command,
                        result: Ok(
                            match member(t, "data"@) {
                                Some(data) => data,
                                None => JsonTree::Null,
                            },
                        ),
                    },
                ),
                Some(JsonTree::Bool(false)) => match required_string(
                    t,
                    "error"@,
                    HarnessKind::Omp,
                ) {
                    Err(e) => Err(e),
                    Ok(message) => Ok(
                        OmpFrameView::Response { id, command, result: Err(message) },
                    ),
                },
                _ => Err(bad_frame(HarnessKind::Omp, "response success must be a boolean"@)),
            },
        },
    }
}

/// The call of a registered tool.
pub open spec fn omp_tool_call(t: JsonTree) -> Result<OmpFrameView, AdapterFault> {
    match member(t, "arguments"@) {
        Some(JsonTree::Object(members)) => match omp_correlation(t) {
            Err(e) => Err(e),
            Ok(id) => match required_string(t, "toolCallId"@, HarnessKind::Omp) {
                Err(e) => Err(e),
                Ok(tool_call_id) => match required_string(t, "toolName"@, HarnessKind::Omp) {
                    Err(e) => Err(e),
                    Ok(tool_name) => Ok(
                        OmpFrameView::HostToolCall {
                            id,
                            tool_call_id,
                            tool_name,
                            arguments: JsonTree::Object(members),
                        },
                    ),
                },
            },
        },
        _ => Err(bad_frame(HarnessKind::Omp, "host tool arguments must be an object"@)),
    }
}

/// The frame that a tree is.
pub open spec fn omp_frame(t: JsonTree) -> Result<OmpFrameView, AdapterFault> {
    if !(t is Object) {
        Err(bad_frame(HarnessKind::Omp, "top-level frame must be an object"@))
    } else {
        match required_string(t, "type"@, HarnessKind::Omp) {
            Err(e) => Err(e),
            Ok(name) => if name == "ready"@ {
                Ok(OmpFrameView::Ready)
            } else if name == "response"@ {
                omp_response(t)
            } else if name == "host_tool_call"@ {
                omp_tool_call(t)
            } else if name == "host_tool_cancel"@ {
                match omp_correlation(t) {
                    Err(e) => Err(e),
                    Ok(id) => match required_string(t, "targetId"@, HarnessKind::Omp) {
                        Err(e) => Err(e),
                        Ok(target_id) => Ok(OmpFrameView::HostToolCancel { id, target_id }),
                    },
                }
            } else if name == "extension_ui_request"@ {
                match omp_correlation(t) {
                    Err(e) => Err(e),
                    Ok(id) => match required_string(t, "method"@, HarnessKind::Omp) {
                        Err(e) => Err(e),
                        Ok(method) => Ok(
                            OmpFrameView::ExtensionUiRequest { id, method, payload: t },
                        ),
                    },
                }
            } else {
                Ok(OmpFrameView::SessionEvent { event_type: name, payload: t })
            },
        }
    }
}

fn classify_omp_response(value: &serde_json::Value) -> (r: Result<OmpFrame, AdapterError>)
    ensures
        match (r, omp_response(tree(*value))) {
            (Ok(frame), Ok(view)) => frame@ == view,
            (Err(e), Err(f)) => e@ == f,
            _ => false,
        },
{
    let id = match required_omp_correlation(value) {
        Err(e) => {
            return Err(e);
        },
        Ok(id) => id,
    };
    let command = match required_nonempty_string(value, "command", HarnessKind::Omp) {
        Err(e) => {
            return Err(e);
        },
        Ok(command) => command,
    };
    let success = match get_member(value, "success") {
        Some(found) => get_bool(found),
        None => None,
    };
    match success {
        Some(true) => {
            let data = match get_member(value, "data") {
                Some(found) => copy_value(found),
                None => null_value(),
            };
            Ok(OmpFrame::Response { id, command, result: Ok(data) })
        },
        Some(false) => match required_nonempty_string(value, "error", HarnessKind::Omp) {
            Err(e) => Err(e),
            Ok(message) => Ok(OmpFrame::Response { id, command, result: Err(message) }),
        },
        None => Err(
            invalid_frame(HarnessKind::Omp, "response success must be a boolean".to_owned()),
        ),
    }
}

fn classify_omp_tool_call(value: &serde_json::Value) -> (r: Result<OmpFrame, AdapterError>)
    ensures
        match (r, omp_tool_call(tree(*value))) {
            (Ok(frame), Ok(view)) => frame@ == view,
            (Err(e), Err(f)) => e@ == f,
            _ => false,
        },
{
    let arguments = match get_member(value, "arguments") {
        Some(found) => {
            if !is_object(found) {
                return Err(
                    invalid_frame(
                        HarnessKind::Omp,
                        "host tool arguments must be an object".to_owned(),
                    ),
                );
            }
            copy_value(found)
        },
        None => {
            return Err(
                invalid_frame(
                    HarnessKind::Omp,
                    "host tool arguments must be an object".to_owned(),
                ),
            );
        },
    };
    let id = match required_omp_correlation(value) {
        Err(e) => {
            return Err(e);
        },
        Ok(id) => id,
    };
    let tool_call_id = match required_nonempty_string(value, "toolCallId", HarnessKind::Omp) {
        Err(e) => {
            return Err(e);
        },
        Ok(s) => s,
    };
    match required_nonempty_string(value, "toolName", HarnessKind::Omp) {
        Err(e) => Err(e),
        Ok(tool_name) => Ok(OmpFrame::HostToolCall { id, tool_call_id, tool_name, arguments }),
    }
}

/// Classifies one decoded OMP frame.
pub fn classify_omp_value(value: serde_json::Value) -> (r: Result<OmpFrame, AdapterError>)
    ensures
        match (r, omp_frame(tree(value))) {
            (Ok(frame), Ok(view)) => frame@ == view,
            (Err(e), Err(f)) => e@ == f,
            _ => false,
        },
{
    if !is_object(&value) {
        return Err(
            invalid_frame(HarnessKind::Omp, "top-level frame must be an object".to_owned()),
        );
    }
    let name = match required_nonempty_string(&value, "type", HarnessKind::Omp) {
        Err(e) => {
            return Err(e);
        },
        Ok(name) => name,
    };
    if same_text(name.as_str(), "ready") {
        return Ok(OmpFrame::Ready);
    }
    if same_text(name.as_str(), "response") {
        return classify_omp_response(&value);
    }
    if same_text(name.as_str(), "host_tool_call") {
        return classify_omp_tool_call(&value);
    }
    if same_text(name.as_str(), "host_tool_cancel") {
        let id = match required_omp_correlation(&value) {
            Err(e) => {
                return Err(e);
            },
            Ok(id) => id,
        };
        return match required_nonempty_string(&value, "targetId", HarnessKind::Omp) {
            Err(e) => Err(e),
            Ok(target_id) => Ok(OmpFrame::HostToolCancel { id, target_id }),
        };
    }
    if same_text(name.as_str(), "extension_ui_request") {
        let id = match required_omp_correlation(&value) {
            Err(e) => {
                return Err(e);
            },
            Ok(id) => id,
        };
        return match required_nonempty_string(&value, "method", HarnessKind::Omp) {
            Err(e) => Err(e),
            Ok(method) => Ok(OmpFrame::ExtensionUiRequest { id, method, payload: value }),
        };
    }
    Ok(OmpFrame::SessionEvent { event_type: name, payload: value })
}

/// Parses and classifies one OMP RPC JSONL frame.
pub fn classify_omp_frame(line: &str) -> (r: Result<OmpFrame, AdapterError>)
    ensures
        match json_of(line@) {
            Err(message) => r is Err && r->Err_0@ == (AdapterFault::InvalidJson {
                kind: HarnessKind::Omp,
                source: message,
            }),
            Ok(t) => match (r, omp_frame(t)) {
                (Ok(frame), Ok(view)) => frame@ == view,
                (Err(e), Err(f)) => e@ == f,
                _ => false,
            },
        },
{
    match parse_json(line) {
        Err(source) => Err(AdapterError::InvalidJson { kind: HarnessKind::Omp, source }),
        Ok(value) => classify_omp_value(value),
    }
}

// ---------------------------------------------------------------------------------------------
// Codex frames
// ---------------------------------------------------------------------------------------------

/// Classified Codex App Server output frame from the pinned protocol.
#[derive(Debug)]
#[allow(inconsistent_fields)]
pub enum CodexFrame {
    /// Correlated response to a Host request.
    Response { id: CorrelationId, result: Result<serde_json::Value, serde_json::Value> },
    /// Uncorrelated provider notification such as `turn/completed`.
    Notification { method: String, params: serde_json::Value },
    /// Correlated provider request requiring Host handling.
    ServerRequest { id: CorrelationId, method: String, params: serde_json::Value },
}

/// What a [`CodexFrame`] says.
#[allow(inconsistent_fields)]
pub enum CodexFrameView {
    Response { id: Correlation, result: Result<JsonTree, JsonTree> },
    Notification { method: Seq<char>, params: JsonTree },
    ServerRequest { id: Correlation, method: Seq<char>, params: JsonTree },
}

impl View for CodexFrame {
    type V = CodexFrameView;

    open spec fn view(&self) -> CodexFrameView {
        match self {
            CodexFrame::Response { id, result } => CodexFrameView::Response {
                id: id@,
                result: match *result {
                    Ok(value) => Ok(tree(value)),
                    Err(value) => Err(tree(value)),
                },
            },
            CodexFrame::Notification { method, params } => CodexFrameView::Notification {
                method: method@,
                params: tree(*params),
            },
            CodexFrame::ServerRequest { id, method, params } => CodexFrameView::ServerRequest {
                id: id@,
                method: method@,
                params: tree(*params),
            },
        }
    }
}

/// The parameters of a frame; null where it has none.
pub open spec fn params_of(t: JsonTree) -> JsonTree {
    match member(t, "params"@) {
        Some(params) => params,
        None => JsonTree::Null,
    }
}

/// The frame that a tree is.
pub open spec fn codex_frame(t: JsonTree) -> Result<CodexFrameView, AdapterFault> {
    if !(t is Object) {
        Err(bad_frame(HarnessKind::Codex, "top-level frame must be an object"@))
    } else {
        match any_correlation(t, HarnessKind::Codex) {
            Err(e) => Err(e),
            Ok(id) => match optional_string(t, "method"@, HarnessKind::Codex) {
                Err(e) => Err(e),
                Ok(method) => match (id, method, member(t, "result"@), member(t, "error"@)) {
                    (Some(id), None, Some(result), None) => Ok(
                        CodexFrameView::Response { id, result: Ok(result) },
                    ),
                    (Some(id), None, None, Some(error)) => Ok(
                        CodexFrameView::Response { id, result: Err(error) },
                    ),
                    (Some(id), Some(method), None, None) => Ok(
                        CodexFrameView::ServerRequest { id, method, params: params_of(t) },
                    ),
                    (None, Some(method), None, None) => Ok(
                        CodexFrameView::Notification { method, params: params_of(t) },
                    ),
                    _ => Err(
                        bad_frame(
                            HarnessKind::Codex,
                            "correlated frame must contain exactly one of result, error, or method"@,
                        ),
                    ),
                },
            },
        }
    }
}

fn copy_params(value: &serde_json::Value) -> (r: serde_json::Value)
    ensures
        tree(r) == params_of(tree(*value)),
{
    match get_member(value, "params") {
        Some(found) => copy_value(found),
        None => null_value(),
    }
}

/// Classifies one decoded Codex frame.
pub fn classify_codex_value(value: &serde_json::Value) -> (r: Result<CodexFrame, AdapterError>)
    ensures
        match (r, codex_frame(tree(*value))) {
            (Ok(frame), Ok(view)) => frame@ == view,
            (Err(e), Err(f)) => e@ == f,
            _ => false,
        },
{
    if !is_object(value) {
        return Err(
            invalid_frame(HarnessKind::Codex, "top-level frame must be an object".to_owned()),
        );
    }
    let id = match optional_correlation(value, HarnessKind::Codex) {
        Err(e) => {
            return Err(e);
        },
        Ok(id) => id,
    };
    let method = match optional_nonempty_string(value, "method", HarnessKind::Codex) {
        Err(e) => {
            return Err(e);
        },
        Ok(method) => method,
    };
    let result = get_member(value, "result");
    let error = get_member(value, "error");
    match (id, method, result, error) {
        (Some(id), None, Some(result), None) => Ok(
            CodexFrame::Response { id, result: Ok(copy_value(result)) },
        ),
        (Some(id), None, None, Some(error)) => Ok(
            CodexFrame::Response { id, result: Err(copy_value(error)) },
        ),
        (Some(id), Some(method), None, None) => Ok(
            CodexFrame::ServerRequest { id, method, params: copy_params(value) },
        ),
        (None, Some(method), None, None) => Ok(
            CodexFrame::Notification { method, params: copy_params(value) },
        ),
        _ => Err(
            invalid_frame(
                HarnessKind::Codex,
                "correlated frame must contain exactly one of result, error, or method".to_owned(),
            ),
        ),
    }
}

/// Parses and classifies one Codex App Server JSONL frame.
pub fn classify_codex_frame(line: &str) -> (r: Result<CodexFrame, AdapterError>)
    ensures
        match json_of(line@) {
            Err(message) => r is Err && r->Err_0@ == (AdapterFault::InvalidJson {
                kind: HarnessKind::Codex,
                source: message,
            }),
            Ok(t) => match (r, codex_frame(t)) {
                (Ok(frame), Ok(view)) => frame@ == view,
                (Err(e), Err(f)) => e@ == f,
                _ => false,
            },
        },
{
    match parse_json(line) {
        Err(source) => Err(AdapterError::InvalidJson { kind: HarnessKind::Codex, source }),
        Ok(value) => classify_codex_value(&value),
    }
}

// ---------------------------------------------------------------------------------------------
// Versions
// ---------------------------------------------------------------------------------------------

/// Output without a single line ending.
pub open spec fn without_ending(output: Seq<char>) -> Seq<char> {
    if has_suffix(output, "\r\n"@) {
        output.take(output.len() - 2)
    } else if has_suffix(output, "\n"@) {
        output.take(output.len() - 1)
    } else {
        output
    }
}

fn strip_ending(output: &str) -> (r: String)
    ensures
        r@ == without_ending(output@),
{
    let n = chars_of(output).len();
    proof {
        reveal_strlit("\r\n");
        reveal_strlit("\n");
        assert("\r\n"@.len() == 2);
        assert("\n"@.len() == 1);
    }
    if ends_with(output, "\r\n") {
        let r = part_of(output, 0, n - 2);
        assert(r@ =~= without_ending(output@));
        r
    } else if ends_with(output, "\n") {
        let r = part_of(output, 0, n - 1);
        assert(r@ =~= without_ending(output@));
        r
    } else {
        output.to_owned()
    }
}

fn validate_version_output(kind: HarnessKind, expected: &str, output: &str) -> (r: Result<
    (),
    AdapterError,
>)
    ensures
        match r {
            Ok(_) => without_ending(output@) == expected@,
            Err(e) => without_ending(output@) != expected@ && e@
                == (AdapterFault::UnsupportedVersion {
                kind,
                expected: expected@,
                actual: without_ending(output@),
            }),
        },
{
    let actual = strip_ending(output);
    if same_text(actual.as_str(), expected) {
        Ok(())
    } else {
        Err(AdapterError::UnsupportedVersion { kind, expected: expected.to_owned(), actual })
    }
}

/// Validates exact `omp --version` output; a single line ending is ignored, all other white space
/// counts.
pub fn validate_omp_version_output(output: &str) -> (r: Result<(), AdapterError>)
    ensures
        match r {
            Ok(_) => without_ending(output@) == OMP_VERSION_OUTPUT@,
            Err(e) => without_ending(output@) != OMP_VERSION_OUTPUT@ && e@
                == (AdapterFault::UnsupportedVersion {
                kind: HarnessKind::Omp,
                expected: OMP_VERSION_OUTPUT@,
                actual: without_ending(output@),
            }),
        },
{
    validate_version_output(HarnessKind::Omp, OMP_VERSION_OUTPUT, output)
}

/// Validates exact `codex --version` output; a single line ending is ignored, all other white space
/// counts.
pub fn validate_codex_version_output(output: &str) -> (r: Result<(), AdapterError>)
    ensures
        match r {
            Ok(_) => without_ending(output@) == CODEX_VERSION_OUTPUT@,
            Err(e) => without_ending(output@) != CODEX_VERSION_OUTPUT@ && e@
                == (AdapterFault::UnsupportedVersion {
                kind: HarnessKind::Codex,
                expected: CODEX_VERSION_OUTPUT@,
                actual: without_ending(output@),
            }),
        },
{
    validate_version_output(HarnessKind::Codex, CODEX_VERSION_OUTPUT, output)
}

} // verus!

//! Per-workspace Coordinator activation and saved Harness selection.
use vstd::prelude::*;
use vstd::utf8::*;

use crate::contract::{
    Activity, CodexApprovalPolicy, CodexSandboxMode, HarnessKind, HarnessTier, TaskState,
    SCHEMA_VERSION,
};
use crate::digest::{digest_form, digest_text};
use crate::identity::HarnessId;
use crate::ledger::shutdown::{is_active_hold, is_unfinished};
use crate::ledger::{is_active_state, Ledger, Model};
use crate::paths::{below, join_path};
use crate::rows::{HoldRow, SessionRow, TaskRow};
use crate::select::some_where;
use crate::text::{
    blank, byte_count, byte_len, copy_text, decimal, decimal_text, is_blank, join, join3,
    optional_text, same_optional, same_text,
};

pub mod registry;

verus! {

// ---------------------------------------------------------------------------------------------
// Vocabulary
// ---------------------------------------------------------------------------------------------

/// Persistent user intent for one workspace.
#[derive(Debug, Clone, Copy, PartialEq, Eq, Structural)]
pub enum DesiredActivation {
    /// Coordinator commands are rejected for this workspace.
    Off,
    /// Coordinator configuration is enabled for this workspace.
    On,
}

impl DesiredActivation {
    /// Persisted name.
    pub open spec fn name(self) -> Seq<char> {
        match self {
            DesiredActivation::Off => "off"@,
            DesiredActivation::On => "on"@,
        }
    }

    /// Persisted name.
    pub fn as_str(self) -> (r: &'static str)
        ensures
            r@ == self.name(),
    {
        match self {
            DesiredActivation::Off => "off",
            DesiredActivation::On => "on",
        }
    }
}

/// Runtime status is deliberately separate from durable user intent.
#[derive(Debug, Clone, Copy, PartialEq, Eq, Structural)]
pub enum ActivationRuntime {
    /// No Coordinator process is expected to be live.
    Offline,
    /// Desired state survived a cold restart and must be explicitly reactivated.
    ReactivationRequired,
    /// The workspace Coordinator and selected Harnesses passed readiness.
    Online,
    /// Startup was incomplete and requires operator reconciliation.
    RecoveryRequired,
}

impl ActivationRuntime {
    /// Persisted name.
    pub open spec fn name(self) -> Seq<char> {
        match self {
            ActivationRuntime::Offline => "offline"@,
            ActivationRuntime::ReactivationRequired => "reactivation_required"@,
            ActivationRuntime::Online => "online"@,
            ActivationRuntime::RecoveryRequired => "recovery_required"@,
        }
    }

    /// Persisted name.
    pub fn as_str(self) -> (r: &'static str)
        ensures
            r@ == self.name(),
    {
        match self {
            ActivationRuntime::Offline => "offline",
            ActivationRuntime::ReactivationRequired => "reactivation_required",
            ActivationRuntime::Online => "online",
            ActivationRuntime::RecoveryRequired => "recovery_required",
        }
    }
}

/// Exact Supervisor declaration saved for a workspace.
#[derive(Debug)]
pub struct SupervisorSelection {
    /// Native Supervisor Harness Kind.
    pub kind: HarnessKind,
    /// Explicit model identifier; the Coordinator never chooses one.
    pub model: String,
    /// Optional provider-native reasoning effort.
    pub reasoning_effort: Option<String>,
    /// Explicit Codex App Server approval policy.
    pub codex_approval_policy: Option<CodexApprovalPolicy>,
    /// Explicit Codex App Server sandbox mode.
    pub codex_sandbox_mode: Option<CodexSandboxMode>,
}

/// Exact durable Worker identity and launch profile selection.
#[derive(Debug)]
pub struct WorkerSelection {
    /// Worker address used by Tasks.
    pub worker_id: HarnessId,
    /// Coordinator-owned launch profile ID.
    pub profile_id: HarnessId,
}

/// Explicit Harness selection retained while the workspace is off.
#[derive(Debug)]
pub struct WorkspaceSelection {
    /// Persisted selection contract version.
    pub schema_version: u32,
    /// Sole planning and verification authority.
    pub supervisor: SupervisorSelection,
    /// Explicitly addressable execution Harnesses.
    pub workers: Vec<WorkerSelection>,
}

/// What a [`SupervisorSelection`] says.
pub struct SupervisorChoice {
    pub kind: HarnessKind,
    pub model: Seq<char>,
    pub reasoning_effort: Option<Seq<char>>,
    pub codex_approval_policy: Option<CodexApprovalPolicy>,
    pub codex_sandbox_mode: Option<CodexSandboxMode>,
}

/// What a [`WorkspaceSelection`] says; Workers with their profiles.
pub struct Selection {
    pub schema_version: u32,
    pub supervisor: SupervisorChoice,
    pub workers: Seq<(Seq<char>, Seq<char>)>,
}

impl View for SupervisorSelection {
    type V = SupervisorChoice;

    open spec fn view(&self) -> SupervisorChoice {
        SupervisorChoice {
            kind: self.kind,
            model: self.model@,
            reasoning_effort: optional_text(self.reasoning_effort),
            codex_approval_policy: self.codex_approval_policy,
            codex_sandbox_mode: self.codex_sandbox_mode,
        }
    }
}

pub open spec fn worker_choices(v: Seq<WorkerSelection>) -> Seq<(Seq<char>, Seq<char>)> {
    Seq::new(v.len(), |i: int| (v[i].worker_id@, v[i].profile_id@))
}

impl View for WorkspaceSelection {
    type V = Selection;

    open spec fn view(&self) -> Selection {
        Selection {
            schema_version: self.schema_version,
            supervisor: self.supervisor@,
            workers: worker_choices(self.workers@),
        }
    }
}

pub open spec fn selection_view(s: Option<WorkspaceSelection>) -> Option<Selection> {
    match s {
        Some(s) => Some(s@),
        None => None,
    }
}

/// Stable identity resolved from action context and repository state.
#[derive(Debug)]
pub struct WorkspaceIdentity {
    pub session_socket: String,
    pub workspace_id: String,
    pub repository_root: String,
}

impl WorkspaceIdentity {
    /// An identity that is resolved and validated on use.
    pub fn new(session_socket: String, workspace_id: String, repository_root: String) -> (r:
        WorkspaceIdentity)
        ensures
            r.session_socket == session_socket,
            r.workspace_id == workspace_id,
            r.repository_root == repository_root,
    {
        WorkspaceIdentity { session_socket, workspace_id, repository_root }
    }

    /// The session socket that scopes the workspace identifier.
    pub fn session_socket(&self) -> (r: &str)
        ensures
            r@ == self.session_socket@,
    {
        self.session_socket.as_str()
    }
}

/// Idempotent desired-state request with optional compare-and-set protection.
#[derive(Debug)]
pub struct SetActivationRequest {
    /// Requested durable state.
    pub desired: DesiredActivation,
    /// Revision observed by the caller.
    pub expected_revision: Option<u64>,
    /// Replacement selection; required on first enable.
    pub selection: Option<WorkspaceSelection>,
}

/// Public activation projection.
#[derive(Debug)]
pub struct WorkspaceActivationView {
    /// Persisted contract version.
    pub schema_version: u32,
    /// Opaque workspace ID.
    pub workspace_id: String,
    /// Canonical repository worktree root.
    pub repository_root: String,
    /// Monotonic compare-and-set revision.
    pub revision: u64,
    /// Durable user intent.
    pub desired: DesiredActivation,
    /// Best-known live state.
    pub runtime: ActivationRuntime,
    /// Saved exact Supervisor and Worker selection.
    pub selection: Option<WorkspaceSelection>,
    /// Actionable recovery evidence, when present.
    pub diagnostic: Option<String>,
    /// Private per-workspace Coordinator state directory.
    pub state_dir: String,
}

/// What a [`WorkspaceActivationView`] says.
pub struct ActivationView {
    pub schema_version: u32,
    pub workspace_id: Seq<char>,
    pub repository_root: Seq<char>,
    pub revision: u64,
    pub desired: DesiredActivation,
    pub runtime: ActivationRuntime,
    pub selection: Option<Selection>,
    pub diagnostic: Option<Seq<char>>,
    pub state_dir: Seq<char>,
}

impl View for WorkspaceActivationView {
    type V = ActivationView;

    open spec fn view(&self) -> ActivationView {
        ActivationView {
            schema_version: self.schema_version,
            workspace_id: self.workspace_id@,
            repository_root: self.repository_root@,
            revision: self.revision,
            desired: self.desired,
            runtime: self.runtime,
            selection: selection_view(self.selection),
            diagnostic: optional_text(self.diagnostic),
            state_dir: self.state_dir@,
        }
    }
}

/// Workspace activation failure with stable operator-facing meaning.
#[derive(Debug)]
#[allow(inconsistent_fields)]
pub enum ActivationError {
    /// Context did not provide a usable workspace identity.
    InvalidIdentity(String),
    /// The same identity was previously bound to a different root.
    IdentityMismatch { workspace_id: String },
    /// First activation did not explicitly name the Supervisor and Workers.
    SelectionRequired,
    /// Harness selection violates a public invariant.
    InvalidSelection(String),
    /// Caller attempted a competing write based on stale state.
    RevisionConflict { expected: u64, actual: u64 },
    /// Another workspace already owns this canonical worktree activation.
    RepositoryAlreadyActive { root: String, workspace_id: String },
    /// Durable work makes shutdown unsafe.
    WorkspaceBusy(String),
    /// Filesystem or storage failure.
    Storage(String),
}

/// What an [`ActivationError`] says.
#[allow(inconsistent_fields)]
pub enum ActivationFault {
    InvalidIdentity(Seq<char>),
    IdentityMismatch { workspace_id: Seq<char> },
    SelectionRequired,
    InvalidSelection(Seq<char>),
    RevisionConflict { expected: u64, actual: u64 },
    RepositoryAlreadyActive { root: Seq<char>, workspace_id: Seq<char> },
    WorkspaceBusy(Seq<char>),
    Storage(Seq<char>),
}

impl View for ActivationError {
    type V = ActivationFault;

    open spec fn view(&self) -> ActivationFault {
        match self {
            ActivationError::InvalidIdentity(s) => ActivationFault::InvalidIdentity(s@),
            ActivationError::IdentityMismatch { workspace_id } => {
                ActivationFault::IdentityMismatch { workspace_id: workspace_id@ }
            },
            ActivationError::SelectionRequired => ActivationFault::SelectionRequired,
            ActivationError::InvalidSelection(s) => ActivationFault::InvalidSelection(s@),
            ActivationError::RevisionConflict { expected, actual } => {
                ActivationFault::RevisionConflict { expected: *expected, actual: *actual }
            },
            ActivationError::RepositoryAlreadyActive { root, workspace_id } => {
                ActivationFault::RepositoryAlreadyActive {
                    root: root@,
                    workspace_id: workspace_id@,
                }
            },
            ActivationError::WorkspaceBusy(s) => ActivationFault::WorkspaceBusy(s@),
            ActivationError::Storage(s) => ActivationFault::Storage(s@),
        }
    }
}

/// The diagnostic text of a fault.
pub open spec fn activation_text(f: ActivationFault) -> Seq<char> {
    match f {
        ActivationFault::InvalidIdentity(s) => "invalid workspace identity: "@ + s,
        ActivationFault::IdentityMismatch { workspace_id } => "workspace `"@ + workspace_id
            + "` is already bound to a different repository root"@,
        ActivationFault::SelectionRequired => {
            "an explicit Supervisor and Worker selection is required on first enable"@
        },
        ActivationFault::InvalidSelection(s) => "invalid Harness selection: "@ + s,
        ActivationFault::RevisionConflict { expected, actual } => {
            "workspace activation revision conflict: expected "@ + decimal(expected as nat)
                + ", actual "@ + decimal(actual as nat)
        },
        ActivationFault::RepositoryAlreadyActive { root, workspace_id } => "repository `"@ + root
            + "` is already enabled by workspace `"@ + workspace_id + "`"@,
        ActivationFault::WorkspaceBusy(s) => "workspace cannot be disabled while "@ + s,
        ActivationFault::Storage(s) => "workspace activation storage failure: "@ + s,
    }
}

impl ActivationError {
    /// The diagnostic text.
    pub fn text(&self) -> (r: String)
        ensures
            r@ == activation_text(self@),
    {
        match self {
            ActivationError::InvalidIdentity(s) => join("invalid workspace identity: ", s.as_str()),
            ActivationError::IdentityMismatch { workspace_id } => join3(
                "workspace `",
                workspace_id.as_str(),
                "` is already bound to a different repository root",
            ),
            ActivationError::SelectionRequired => {
                "an explicit Supervisor and Worker selection is required on first enable".to_owned()
            },
            ActivationError::InvalidSelection(s) => join("invalid Harness selection: ", s.as_str()),
            ActivationError::RevisionConflict { expected, actual } => {
                let e = decimal_text(*expected);
                let a = decimal_text(*actual);
                let mut r = join3(
                    "workspace activation revision conflict: expected ",
                    e.as_str(),
                    ", actual ",
                );
                r.append(a.as_str());
                r
            },
            ActivationError::RepositoryAlreadyActive { root, workspace_id } => {
                let mut r = join3(
                    "repository `",
                    root.as_str(),
                    "` is already enabled by workspace `",
                );
                r.append(workspace_id.as_str());
                r.append("`");
                r
            },
            ActivationError::WorkspaceBusy(s) => join(
                "workspace cannot be disabled while ",
                s.as_str(),
            ),
            ActivationError::Storage(s) => join(
                "workspace activation storage failure: ",
                s.as_str(),
            ),
        }
    }
}

/// A storage failure.
pub fn storage(error: &str) -> (r: ActivationError)
    ensures
        r@ == ActivationFault::Storage(error@),
{
    ActivationError::Storage(error.to_owned())
}

/// Reads a persisted desired state.
pub fn desired_from_str(value: &str) -> (r: Result<DesiredActivation, ActivationError>)
    ensures
        match r {
            Ok(d) => d.name() == value@,
            Err(e) => value@ != "on"@ && value@ != "off"@ && e@ == ActivationFault::Storage(
                "unknown desired state `"@ + value@ + "`"@,
            ),
        },
{
    if same_text(value, "on") {
        Ok(DesiredActivation::On)
    } else if same_text(value, "off") {
        Ok(DesiredActivation::Off)
    } else {
        Err(ActivationError::Storage(join3("unknown desired state `", value, "`")))
    }
}

/// Reads a persisted runtime state.
pub fn runtime_from_str(value: &str) -> (r: Result<ActivationRuntime, ActivationError>)
    ensures
        match r {
            Ok(s) => s.name() == value@,
            Err(e) => value@ != "offline"@ && value@ != "reactivation_required"@ && value@
                != "online"@ && value@ != "recovery_required"@ && e@ == ActivationFault::Storage(
                "unknown runtime state `"@ + value@ + "`"@,
            ),
        },
{
    if same_text(value, "offline") {
        Ok(ActivationRuntime::Offline)
    } else if same_text(value, "reactivation_required") {
        Ok(ActivationRuntime::ReactivationRequired)
    } else if same_text(value, "online") {
        Ok(ActivationRuntime::Online)
    } else if same_text(value, "recovery_required") {
        Ok(ActivationRuntime::RecoveryRequired)
    } else {
        Err(ActivationError::Storage(join3("unknown runtime state `", value, "`")))
    }
}

// ---------------------------------------------------------------------------------------------
// Selections
// ---------------------------------------------------------------------------------------------

/// No Worker stands in a selection twice.
pub open spec fn workers_differ(workers: Seq<(Seq<char>, Seq<char>)>) -> bool {
    forall|i: int, j: int|
        0 <= i < j < workers.len() ==> (#[trigger] workers[i]).0 != (#[trigger] workers[j]).0
}

/// Why a selection is refused.
pub open spec fn selection_refusal(s: Selection) -> Option<Seq<char>> {
    let codex = s.supervisor.kind == HarnessKind::Codex;
    let approval = s.supervisor.codex_approval_policy is Some;
    let sandbox = s.supervisor.codex_sandbox_mode is Some;
    if s.schema_version != SCHEMA_VERSION {
        Some("selection schema_version must equal 1"@)
    } else if blank(s.supervisor.model) {
        Some("Supervisor model is empty"@)
    } else if codex && !(approval && sandbox) {
        Some("Codex Supervisor requires explicit approval and sandbox policies"@)
    } else if !codex && (approval || sandbox) {
        Some("Codex Supervisor policies require a Codex Supervisor"@)
    } else if s.workers.len() == 0 {
        Some("at least one Worker is required"@)
    } else if !workers_differ(s.workers) {
        Some("Worker IDs must be unique"@)
    } else {
        None
    }
}

fn invalid(text: &str) -> (r: ActivationError)
    ensures
        r@ == ActivationFault::InvalidSelection(text@),
{
    ActivationError::InvalidSelection(text.to_owned())
}

fn are_workers_different(v: &Vec<WorkerSelection>) -> (r: bool)
    ensures
        r == workers_differ(worker_choices(v@)),
{
    let ghost w = worker_choices(v@);
    let mut i: usize = 0;
    while i < v.len()
        invariant
            i <= v.len(),
            w == worker_choices(v@),
            forall|x: int, y: int| 0 <= x < i && x < y < w.len() ==> (#[trigger] w[x]).0 != (
            #[trigger] w[y]).0,
        decreases v.len() - i,
    {
        let mut j: usize = i + 1;
        while j < v.len()
            invariant
                i < j <= v.len(),
                w == worker_choices(v@),
                forall|y: int| i < y < j ==> w[i as int].0 != (#[trigger] w[y]).0,
            decreases v.len() - j,
        {
            if same_text(v[i].worker_id.as_str(), v[j].worker_id.as_str()) {
                assert(w[i as int].0 == w[j as int].0);
                return false;
            }
            j += 1;
        }
        i += 1;
    }
    true
}

/// Requires a selection that can be enabled.
pub fn validate_selection(selection: &WorkspaceSelection) -> (r: Result<(), ActivationError>)
    ensures
        match selection_refusal(selection@) {
            None => r is Ok,
            Some(text) => r is Err && r->Err_0@ == ActivationFault::InvalidSelection(text),
        },
{
    let codex = selection.supervisor.kind == HarnessKind::Codex;
    let approval = selection.supervisor.codex_approval_policy.is_some();
    let sandbox = selection.supervisor.codex_sandbox_mode.is_some();
    if selection.schema_version != SCHEMA_VERSION {
        return Err(invalid("selection schema_version must equal 1"));
    }
    if is_blank(selection.supervisor.model.as_str()) {
        return Err(invalid("Supervisor model is empty"));
    }
    if codex && !(approval && sandbox) {
        return Err(invalid("Codex Supervisor requires explicit approval and sandbox policies"));
    }
    if !codex && (approval || sandbox) {
        return Err(invalid("Codex Supervisor policies require a Codex Supervisor"));
    }
    if selection.workers.len() == 0 {
        return Err(invalid("at least one Worker is required"));
    }
    if !are_workers_different(&selection.workers) {
        return Err(invalid("Worker IDs must be unique"));
    }
    Ok(())
}

/// The version of selections that are saved.
pub fn selection_schema_version() -> (r: u32)
    ensures
        r == SCHEMA_VERSION,
{
    SCHEMA_VERSION
}

pub fn copy_selection(s: &WorkspaceSelection) -> (r: WorkspaceSelection)
    ensures
        r@ == s@,
{
    let mut workers: Vec<WorkerSelection> = Vec::new();
    let mut i: usize = 0;
    while i < s.workers.len()
        invariant
            i <= s.workers.len(),
            workers.len() == i,
            forall|j: int|
                0 <= j < i ==> (#[trigger] workers@[j]).worker_id@ == s.workers@[j].worker_id@
                    && workers@[j].profile_id@ == s.workers@[j].profile_id@,
        decreases s.workers.len() - i,
    {
        let w = &s.workers[i];
        workers.push(
            WorkerSelection {
                worker_id: HarnessId(w.worker_id.as_str().to_owned()),
                profile_id: HarnessId(w.profile_id.as_str().to_owned()),
            },
        );
        i += 1;
    }
    let r = WorkspaceSelection {
        schema_version: s.schema_version,
        supervisor: SupervisorSelection {
            kind: s.supervisor.kind,
            model: s.supervisor.model.as_str().to_owned(),
            reasoning_effort: copy_text(&s.supervisor.reasoning_effort),
            codex_approval_policy: s.supervisor.codex_approval_policy,
            codex_sandbox_mode: s.supervisor.codex_sandbox_mode,
        },
        workers,
    };
    assert(r@.workers =~= s@.workers);
    r
}

fn same_policy(a: Option<CodexApprovalPolicy>, b: Option<CodexApprovalPolicy>) -> (r: bool)
    ensures
        r == (a == b),
{
    match (a, b) {
        (None, None) => true,
        (Some(x), Some(y)) => x == y,
        _ => false,
    }
}

fn same_mode(a: Option<CodexSandboxMode>, b: Option<CodexSandboxMode>) -> (r: bool)
    ensures
        r == (a == b),
{
    match (a, b) {
        (None, None) => true,
        (Some(x), Some(y)) => x == y,
        _ => false,
    }
}

pub fn same_selection(a: &WorkspaceSelection, b: &WorkspaceSelection) -> (r: bool)
    ensures
        r == (a@ == b@),
{
    if a.schema_version != b.schema_version || a.supervisor.kind != b.supervisor.kind || !same_text(
        a.supervisor.model.as_str(),
        b.supervisor.model.as_str(),
    ) || !same_optional(&a.supervisor.reasoning_effort, &b.supervisor.reasoning_effort)
        || !same_policy(a.supervisor.codex_approval_policy, b.supervisor.codex_approval_policy)
        || !same_mode(a.supervisor.codex_sandbox_mode, b.supervisor.codex_sandbox_mode)
        || a.workers.len() != b.workers.len() {
        assert(a@.workers.len() == a.workers.len() && b@.workers.len() == b.workers.len());
        return false;
    }
    let mut i: usize = 0;
    while i < a.workers.len()
        invariant
            i <= a.workers.len(),
            a.workers.len() == b.workers.len(),
            forall|j: int| 0 <= j < i ==> #[trigger] a@.workers[j] == b@.workers[j],
        decreases a.workers.len() - i,
    {
        if !same_text(a.workers[i].worker_id.as_str(), b.workers[i].worker_id.as_str())
            || !same_text(a.workers[i].profile_id.as_str(), b.workers[i].profile_id.as_str()) {
            assert(a@.workers[i as int] != b@.workers[i as int]);
            return false;
        }
        i += 1;
    }
    assert(a@.workers =~= b@.workers);
    true
}

// ---------------------------------------------------------------------------------------------
// Identities
// ---------------------------------------------------------------------------------------------

/// An identity with everything that follows from it.
#[derive(Debug)]
pub struct ResolvedIdentity {
    pub identity_key: String,
    pub session_socket: String,
    pub workspace_id: String,
    pub canonical_root: String,
    pub state_dir: String,
}

/// What a [`ResolvedIdentity`] says.
pub struct Resolved {
    pub identity_key: Seq<char>,
    pub session_socket: Seq<char>,
    pub workspace_id: Seq<char>,
    pub canonical_root: Seq<char>,
    pub state_dir: Seq<char>,
}

impl View for ResolvedIdentity {
    type V = Resolved;

    open spec fn view(&self) -> Resolved {
        Resolved {
            identity_key: self.identity_key@,
            session_socket: self.session_socket@,
            workspace_id: self.workspace_id@,
            canonical_root: self.canonical_root@,
            state_dir: self.state_dir@,
        }
    }
}

/// What the file system says of a repository root: its canonical path, if it is a directory.
#[derive(Debug)]
#[allow(inconsistent_fields)]
pub enum CanonicalRoot {
    Directory { path: String },
    NoDirectory,
    Unreachable { error: String },
}

/// The key of a workspace: a digest of its socket and its name.
pub open spec fn identity_key(socket: Seq<char>, workspace_id: Seq<char>) -> Seq<char> {
    digest_form(encode_utf8(socket + "\0"@ + workspace_id))
}

/// The key of a workspace.
pub fn key_of(socket: &str, workspace_id: &str) -> (r: String)
    ensures
        r@ == identity_key(socket@, workspace_id@),
{
    let named = join3(socket, "\0", workspace_id);
    digest_text(named.as_str())
}

/// An identity with everything that follows from it, below a state directory.
pub open spec fn resolve(
    plugin_state_dir: Seq<char>,
    identity: WorkspaceIdentity,
    root: CanonicalRoot,
) -> Result<Resolved, ActivationFault> {
    let key = identity_key(identity.session_socket@, identity.workspace_id@);
    if blank(identity.workspace_id@) || byte_count(identity.workspace_id@) > 256 {
        Err(ActivationFault::InvalidIdentity("workspace ID is missing or too long"@))
    } else {
        match root {
            CanonicalRoot::Unreachable { error } => Err(ActivationFault::Storage(error@)),
            CanonicalRoot::NoDirectory => Err(
                ActivationFault::InvalidIdentity("repository root is not a directory"@),
            ),
            CanonicalRoot::Directory { path } => if blank(identity.session_socket@) {
                Err(ActivationFault::InvalidIdentity("Herdr session socket is missing"@))
            } else {
                Ok(
                    Resolved {
                        identity_key: key,
                        session_socket: identity.session_socket@,
                        workspace_id: identity.workspace_id@,
                        canonical_root: path@,
                        state_dir: below(below(plugin_state_dir, "workspaces"@), key),
                    },
                )
            },
        }
    }
}

/// Resolves an identity.
pub fn resolve_identity(plugin_state_dir: &str, identity: &WorkspaceIdentity, root: CanonicalRoot) -> (r:
    Result<ResolvedIdentity, ActivationError>)
    ensures
        match (r, resolve(plugin_state_dir@, *identity, root)) {
            (Ok(found), Ok(view)) => found@ == view,
            (Err(e), Err(f)) => e@ == f,
            _ => false,
        },
{
    if is_blank(identity.workspace_id.as_str()) || byte_len(identity.workspace_id.as_str()) > 256 {
        return Err(
            ActivationError::InvalidIdentity("workspace ID is missing or too long".to_owned()),
        );
    }
    let canonical_root = match root {
        CanonicalRoot::Unreachable { error } => {
            return Err(ActivationError::Storage(error));
        },
        CanonicalRoot::NoDirectory => {
            return Err(
                ActivationError::InvalidIdentity("repository root is not a directory".to_owned()),
            );
        },
        CanonicalRoot::Directory { path } => path,
    };
    if is_blank(identity.session_socket.as_str()) {
        return Err(
            ActivationError::InvalidIdentity("Herdr session socket is missing".to_owned()),
        );
    }
    let identity_key = key_of(identity.session_socket.as_str(), identity.workspace_id.as_str());
    let workspaces = join_path(plugin_state_dir, "workspaces");
    let state_dir = join_path(workspaces.as_str(), identity_key.as_str());
    Ok(
        ResolvedIdentity {
            identity_key,
            session_socket: identity.session_socket.as_str().to_owned(),
            workspace_id: identity.workspace_id.as_str().to_owned(),
            canonical_root,
            state_dir,
        },
    )
}

impl ResolvedIdentity {
    /// The view of a workspace that was never set: off.
    pub fn default_view(&self) -> (r: WorkspaceActivationView)
        ensures
            r@ == unset_view(self@),
    {
        WorkspaceActivationView {
            schema_version: SCHEMA_VERSION,
            workspace_id: self.workspace_id.as_str().to_owned(),
            repository_root: self.canonical_root.as_str().to_owned(),
            revision: 0,
            desired: DesiredActivation::Off,
            runtime: ActivationRuntime::Offline,
            selection: None,
            diagnostic: None,
            state_dir: self.state_dir.as_str().to_owned(),
        }
    }
}

/// The view of a workspace that was never set.
pub open spec fn unset_view(resolved: Resolved) -> ActivationView {
    ActivationView {
        schema_version: SCHEMA_VERSION,
        workspace_id: resolved.workspace_id,
        repository_root: resolved.canonical_root,
        revision: 0,
        desired: DesiredActivation::Off,
        runtime: ActivationRuntime::Offline,
        selection: None,
        diagnostic: None,
        state_dir: resolved.state_dir,
    }
}

// ---------------------------------------------------------------------------------------------
// Safe shutdown
// ---------------------------------------------------------------------------------------------

/// A live Worker that is not idle.
pub open spec fn is_busy_worker() -> spec_fn(SessionRow) -> bool {
    |s: SessionRow| s.tier == HarnessTier::Worker && !s.ended && s.activity != Activity::Idle
}

/// What makes it unsafe to disable a workspace.
pub open spec fn shutdown_blocker(m: Model) -> Option<Seq<char>> {
    if some_where(m.tasks, is_unfinished()) {
        Some("Tasks are active or awaiting review"@)
    } else if some_where(m.holds, is_active_hold()) {
        Some("a Worktree Hold is unresolved"@)
    } else if some_where(m.sessions, is_busy_worker()) {
        Some("a Worker Harness is busy"@)
    } else {
        None
    }
}

fn has_unfinished(tasks: &Vec<TaskRow>) -> (r: bool)
    ensures
        r == some_where(tasks@, is_unfinished()),
{
    let mut i: usize = 0;
    while i < tasks.len()
        invariant
            i <= tasks.len(),
            forall|j: int| 0 <= j < i ==> !is_unfinished()(#[trigger] tasks@[j]),
        decreases tasks.len() - i,
    {
        if tasks[i].state == TaskState::Queued || is_active_state(tasks[i].state) {
            assert(is_unfinished()(tasks@[i as int]));
            return true;
        }
        i += 1;
    }
    false
}

fn has_active_hold(holds: &Vec<HoldRow>) -> (r: bool)
    ensures
        r == some_where(holds@, is_active_hold()),
{
    let mut i: usize = 0;
    while i < holds.len()
        invariant
            i <= holds.len(),
            forall|j: int| 0 <= j < i ==> !is_active_hold()(#[trigger] holds@[j]),
        decreases holds.len() - i,
    {
        if !holds[i].cleared {
            assert(is_active_hold()(holds@[i as int]));
            return true;
        }
        i += 1;
    }
    false
}

fn has_busy_worker(sessions: &Vec<SessionRow>) -> (r: bool)
    ensures
        r == some_where(sessions@, is_busy_worker()),
{
    let mut i: usize = 0;
    while i < sessions.len()
        invariant
            i <= sessions.len(),
            forall|j: int| 0 <= j < i ==> !is_busy_worker()(#[trigger] sessions@[j]),
        decreases sessions.len() - i,
    {
        if sessions[i].tier == HarnessTier::Worker && !sessions[i].ended && sessions[i].activity
            != Activity::Idle {
            assert(is_busy_worker()(sessions@[i as int]));
            return true;
        }
        i += 1;
    }
    false
}

/// Requires a workspace that can be disabled without losing work.
pub fn ensure_safe_to_disable(ledger: &Ledger) -> (r: Result<(), ActivationError>)
    ensures
        match shutdown_blocker(ledger@) {
            None => r is Ok,
            Some(text) => r is Err && r->Err_0@ == ActivationFault::WorkspaceBusy(text),
        },
{
    if has_unfinished(&ledger.tasks) {
        Err(ActivationError::WorkspaceBusy("Tasks are active or awaiting review".to_owned()))
    } else if has_active_hold(&ledger.holds) {
        Err(ActivationError::WorkspaceBusy("a Worktree Hold is unresolved".to_owned()))
    } else if has_busy_worker(&ledger.sessions) {
        Err(ActivationError::WorkspaceBusy("a Worker Harness is busy".to_owned()))
    } else {
        Ok(())
    }
}

} // verus!

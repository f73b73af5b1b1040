//! Decisions of the workspace commands: what a selection on the command line means, where a
//! workspace listens, what follows a new desired state, and how it is reported.
use vstd::prelude::*;

use crate::activation::{
    worker_choices, ActivationRuntime, ActivationView, DesiredActivation, Selection,
    SupervisorChoice, SupervisorSelection, WorkerSelection, WorkspaceActivationView,
    WorkspaceSelection,
};
use crate::contract::HarnessKind;
use crate::herdr::{pairs, PaneRequest, PluginPaneOpenParams, PLUGIN_ID, SUPERVISOR_ENTRYPOINT};
use crate::identity::HarnessId;
use crate::paths::{
    below, components, components_of, dot, dots, join_path, lists_view, parent, parent_of, pieces,
    root, split_chars,
};
use crate::select::{first_found, first_missing, first_where};
use crate::text::{
    byte_count, byte_len, chars_of, decimal, decimal_text, join, join3, optional_text, part_of,
    text_of, texts,
};

verus! {

// ---------------------------------------------------------------------------------------------
// Selections
// ---------------------------------------------------------------------------------------------

/// A Worker mapping: the Worker before the first equals sign, the profile behind it.
pub open spec fn mapping(text: Seq<char>) -> Option<(Seq<char>, Seq<char>)> {
    let parts = pieces(text, '=', Some(2nat));
    if parts.len() < 2 {
        None
    } else {
        Some((parts[0], parts[1]))
    }
}

pub open spec fn is_unmapped() -> spec_fn(Seq<char>) -> bool {
    |text: Seq<char>| mapping(text) is None
}

fn read_mapping(text: &str) -> (r: Option<WorkerSelection>)
    ensures
        match (r, mapping(text@)) {
            (Some(w), Some((worker, profile))) => w.worker_id@ == worker && w.profile_id@
                == profile,
            (None, None) => true,
            _ => false,
        },
{
    let chars = chars_of(text);
    let parts = split_chars(&chars, '=', Some(2));
    let ghost all = pieces(text@, '=', Some(2nat));
    assert(lists_view(parts@) == all);
    assert(all.len() == parts.len());
    if parts.len() < 2 {
        return None;
    }
    assert(all[0] == parts@[0]@ && all[1] == parts@[1]@);
    Some(
        WorkerSelection {
            worker_id: HarnessId(text_of(parts[0].as_slice())),
            profile_id: HarnessId(text_of(parts[1].as_slice())),
        },
    )
}

/// The selection that the options of a command ask for; none where no option is given.
pub open spec fn asked_selection(
    kind: Option<HarnessKind>,
    model: Option<Seq<char>>,
    reasoning_effort: Option<Seq<char>>,
    workers: Seq<Seq<char>>,
) -> Result<Option<Selection>, Seq<char>> {
    if kind is None && model is None && reasoning_effort is None && workers.len() == 0 {
        Ok(None)
    } else if kind is None {
        Err("--supervisor-kind is required when changing selection"@)
    } else if model is None {
        Err("--supervisor-model is required when changing selection"@)
    } else if first_where(workers, is_unmapped()) is Some {
        Err("--worker must use worker-id=profile-id"@)
    } else {
        Ok(
            Some(
                Selection {
                    schema_version: 1,
                    supervisor: SupervisorChoice {
                        kind: kind->0,
                        model: model->0,
                        reasoning_effort,
                        codex_approval_policy: None,
                        codex_sandbox_mode: None,
                    },
                    workers: Seq::new(workers.len(), |i: int| mapping(workers[i])->0),
                },
            ),
        )
    }
}

fn read_mappings(workers: &Vec<String>) -> (r: Option<Vec<WorkerSelection>>)
    ensures
        match (r, first_where(texts(workers@), is_unmapped())) {
            (Some(list), None) => worker_choices(list@) == Seq::new(
                workers@.len(),
                |i: int| mapping(texts(workers@)[i])->0,
            ),
            (None, Some(_)) => true,
            _ => false,
        },
{
    let ghost all = texts(workers@);
    let mut r: Vec<WorkerSelection> = Vec::new();
    let mut i: usize = 0;
    while i < workers.len()
        invariant
            i <= workers.len(),
            r.len() == i,
            all == texts(workers@),
            forall|j: int| 0 <= j < i ==> !is_unmapped()(#[trigger] all[j]),
            forall|j: int|
                0 <= j < i ==> mapping(all[j]) == Some(
                    ((#[trigger] r@[j]).worker_id@, r@[j].profile_id@),
                ),
        decreases workers.len() - i,
    {
        assert(all[i as int] == workers@[i as int]@);
        match read_mapping(workers[i].as_str()) {
            None => {
                proof {
                    first_found(all, is_unmapped(), i as int);
                }
                return None;
            },
            Some(w) => {
                r.push(w);
            },
        }
        i += 1;
    }
    proof {
        first_missing(all, is_unmapped());
        assert(worker_choices(r@) =~= Seq::new(workers@.len(), |i: int| mapping(all[i])->0));
    }
    Some(r)
}

/// Reads the selection that the options of a command ask for.
pub fn workspace_selection(
    kind: Option<HarnessKind>,
    model: Option<String>,
    reasoning_effort: Option<String>,
    workers: &Vec<String>,
) -> (r: Result<Option<WorkspaceSelection>, String>)
    ensures
        match (
            r,
            asked_selection(
                kind,
                optional_text(model),
                optional_text(reasoning_effort),
                texts(workers@),
            ),
        ) {
            (Ok(None), Ok(None)) => true,
            (Ok(Some(s)), Ok(Some(selection))) => s@ == selection,
            (Err(e), Err(text)) => e@ == text,
            _ => false,
        },
{
    if kind.is_none() && model.is_none() && workers.len() == 0 && reasoning_effort.is_none() {
        return Ok(None);
    }
    let kind = match kind {
        None => {
            return Err("--supervisor-kind is required when changing selection".to_owned());
        },
        Some(kind) => kind,
    };
    let model = match model {
        None => {
            return Err("--supervisor-model is required when changing selection".to_owned());
        },
        Some(model) => model,
    };
    let selected = match read_mappings(workers) {
        None => {
            return Err("--worker must use worker-id=profile-id".to_owned());
        },
        Some(list) => list,
    };
    Ok(
        Some(
            WorkspaceSelection {
                schema_version: 1,
                supervisor: SupervisorSelection {
                    kind,
                    model,
                    reasoning_effort,
                    codex_approval_policy: None,
                    codex_sandbox_mode: None,
                },
                workers: selected,
            },
        ),
    )
}

// ---------------------------------------------------------------------------------------------
// Sockets
// ---------------------------------------------------------------------------------------------

/// The longest name of a socket, in bytes.
pub const SHORT_NAME_BYTES: usize = 24;

/// The name of a path: its last component, unless that is the root or made of dots.
pub open spec fn file_name(path: Seq<char>) -> Option<Seq<char>> {
    let parts = components(path);
    if parts.len() == 0 || parts.last() == root() || parts.last() == dot() || parts.last()
        == dots() {
        None
    } else {
        Some(parts.last())
    }
}

fn is_special(piece: &Vec<char>) -> (r: bool)
    ensures
        r == (piece@ == root() || piece@ == dot() || piece@ == dots()),
{
    if piece.len() == 1 && (piece[0] == '/' || piece[0] == '.') {
        assert(piece@ =~= seq![piece@[0]]);
        assert(piece@ =~= root() || piece@ =~= dot());
        true
    } else if piece.len() == 2 && piece[0] == '.' && piece[1] == '.' {
        assert(piece@ =~= dots());
        true
    } else {
        assert(piece@ == root() ==> piece@[0] == '/');
        assert(piece@ == dot() ==> piece@[0] == '.');
        assert(piece@ == dots() ==> piece@[0] == '.' && piece@[1] == '.');
        false
    }
}

/// Finds the name of a path.
pub fn file_name_of(path: &str) -> (r: Option<String>)
    ensures
        match (r, file_name(path@)) {
            (Some(found), Some(name)) => found@ == name,
            (None, None) => true,
            _ => false,
        },
{
    let parts = components_of(path);
    assert(components(path@).len() == parts.len());
    if parts.len() == 0 {
        return None;
    }
    let last = &parts[parts.len() - 1];
    assert(components(path@).last() == last@);
    if is_special(last) {
        return None;
    }
    Some(text_of(last.as_slice()))
}

/// The beginning of a name that has the length of a short name, from `n` characters on; the whole
/// name where no beginning has it.
pub open spec fn shortened(name: Seq<char>, n: nat) -> Seq<char>
    decreases name.len() + 1 - n,
{
    if n > name.len() {
        name
    } else if byte_count(name.take(n as int)) == SHORT_NAME_BYTES {
        name.take(n as int)
    } else {
        shortened(name, n + 1)
    }
}

fn shorten(name: &str) -> (r: String)
    ensures
        r@ == shortened(name@, 0),
{
    let chars = chars_of(name);
    let mut n: usize = 0;
    while n < chars.len()
        invariant
            n <= chars.len(),
            chars@ == name@,
            shortened(name@, 0) == shortened(name@, n as nat),
        decreases chars.len() - n,
    {
        let beginning = part_of(name, 0, n);
        assert(beginning@ =~= name@.take(n as int));
        if byte_len(beginning.as_str()) == SHORT_NAME_BYTES {
            return beginning;
        }
        n += 1;
    }
    assert(name@.take(n as int) =~= name@);
    assert(shortened(name@, (n + 1) as nat) == name@);
    name.to_owned()
}

/// Where a workspace listens: below the state of the plugin, under its shortened name.
pub open spec fn socket_path(state_dir: Seq<char>) -> Result<Seq<char>, Seq<char>> {
    match file_name(state_dir) {
        None => Err("workspace state directory has no digest name"@),
        Some(name) => match parent(state_dir) {
            None => Err("workspace state directory has no plugin root"@),
            Some(workspaces) => match parent(workspaces) {
                None => Err("workspace state directory has no plugin root"@),
                Some(plugin) => Ok(below(below(plugin, "s"@), shortened(name, 0) + ".sock"@)),
            },
        },
    }
}

/// Finds where a workspace listens.
pub fn workspace_socket(state_dir: &str) -> (r: Result<String, String>)
    ensures
        match (r, socket_path(state_dir@)) {
            (Ok(path), Ok(found)) => path@ == found,
            (Err(e), Err(text)) => e@ == text,
            _ => false,
        },
{
    let name = match file_name_of(state_dir) {
        None => {
            return Err("workspace state directory has no digest name".to_owned());
        },
        Some(name) => name,
    };
    let workspaces = match parent_of(state_dir) {
        None => {
            return Err("workspace state directory has no plugin root".to_owned());
        },
        Some(workspaces) => workspaces,
    };
    let plugin = match parent_of(workspaces.as_str()) {
        None => {
            return Err("workspace state directory has no plugin root".to_owned());
        },
        Some(plugin) => plugin,
    };
    let short = shorten(name.as_str());
    let file = join(short.as_str(), ".sock");
    let directory = join_path(plugin.as_str(), "s");
    Ok(join_path(directory.as_str(), file.as_str()))
}

// ---------------------------------------------------------------------------------------------
// Steps
// ---------------------------------------------------------------------------------------------

/// What follows a desired state that was set.
#[derive(Debug, Clone, Copy, PartialEq, Eq, Structural)]
pub enum WorkspaceStep {
    /// Stop the Workers and the Coordinator of the workspace.
    Deactivate,
    /// Start the Coordinator and the selected Harnesses of the workspace.
    Activate,
    /// Nothing: the workspace is online already.
    Report,
}

/// Decides what follows a desired state that was set.
pub fn step_after_set(desired: DesiredActivation, runtime: ActivationRuntime) -> (r: WorkspaceStep)
    ensures
        r == (if desired == DesiredActivation::Off {
            WorkspaceStep::Deactivate
        } else if runtime != ActivationRuntime::Online {
            WorkspaceStep::Activate
        } else {
            WorkspaceStep::Report
        }),
{
    if desired == DesiredActivation::Off {
        WorkspaceStep::Deactivate
    } else if runtime != ActivationRuntime::Online {
        WorkspaceStep::Activate
    } else {
        WorkspaceStep::Report
    }
}

/// Requires that only its owner can read the file of a capability.
pub fn require_private(mode: u32) -> (r: Result<(), String>)
    ensures
        match r {
            Ok(_) => mode & 0o077 == 0,
            Err(e) => mode & 0o077 != 0 && e@
                == "Supervisor capability permissions are not private"@,
        },
{
    if mode & 0o077 != 0 {
        return Err("Supervisor capability permissions are not private".to_owned());
    }
    Ok(())
}

/// The pane of a managed Supervisor.
pub open spec fn supervisor_pane_request(
    bearer: Seq<char>,
    workspace_id: Seq<char>,
    state_dir: Seq<char>,
    socket: Seq<char>,
    binary: Seq<char>,
) -> PaneRequest {
    PaneRequest {
        plugin_id: PLUGIN_ID@,
        entrypoint: SUPERVISOR_ENTRYPOINT@,
        placement: Some("tab"@),
        workspace_id: Some(workspace_id),
        cwd: None,
        env: seq![
            ("HERDR_COORDINATOR_BIN"@, binary),
            ("HERDR_COORDINATOR_SOCKET"@, socket),
            ("HERDR_COORDINATOR_STATE_DIR"@, state_dir),
            ("HERDR_SUPERVISOR_CAPABILITY"@, bearer),
        ],
        focus: true,
    }
}

/// Makes the pane of a managed Supervisor.
pub fn supervisor_pane(
    bearer: &str,
    view: &WorkspaceActivationView,
    socket: &str,
    binary: &str,
) -> (r: PluginPaneOpenParams)
    ensures
        r@ == supervisor_pane_request(
            bearer@,
            view.workspace_id@,
            view.state_dir@,
            socket@,
            binary@,
        ),
{
    let workspace_id = view.workspace_id.as_str().to_owned();
    let mut pane = PluginPaneOpenParams::supervisor(
        bearer,
        view.repository_root.as_str(),
        Some(workspace_id),
    );
    let ghost old_pairs = pairs(pane.env@);
    let mut env: Vec<(String, String)> = Vec::new();
    env.push(("HERDR_COORDINATOR_BIN".to_owned(), binary.to_owned()));
    env.push(("HERDR_COORDINATOR_SOCKET".to_owned(), socket.to_owned()));
    env.push(("HERDR_COORDINATOR_STATE_DIR".to_owned(), view.state_dir.as_str().to_owned()));
    let ghost first = env@;
    env.append(&mut pane.env);
    assert(pairs(env@) =~= pairs(first) + old_pairs);
    let r = PluginPaneOpenParams {
        plugin_id: pane.plugin_id,
        entrypoint: pane.entrypoint,
        placement: pane.placement,
        workspace_id: pane.workspace_id,
        cwd: pane.cwd,
        env,
        focus: pane.focus,
    };
    assert(r@.env =~= seq![
        ("HERDR_COORDINATOR_BIN"@, binary@),
        ("HERDR_COORDINATOR_SOCKET"@, socket@),
        ("HERDR_COORDINATOR_STATE_DIR"@, view.state_dir@),
        ("HERDR_SUPERVISOR_CAPABILITY"@, bearer@),
    ]);
    r
}

// ---------------------------------------------------------------------------------------------
// Reports
// ---------------------------------------------------------------------------------------------

pub open spec fn desired_label(desired: DesiredActivation) -> Seq<char> {
    match desired {
        DesiredActivation::Off => "Off"@,
        DesiredActivation::On => "On"@,
    }
}

pub open spec fn runtime_label(runtime: ActivationRuntime) -> Seq<char> {
    match runtime {
        ActivationRuntime::Offline => "Offline"@,
        ActivationRuntime::ReactivationRequired => "ReactivationRequired"@,
        ActivationRuntime::Online => "Online"@,
        ActivationRuntime::RecoveryRequired => "RecoveryRequired"@,
    }
}

fn label_desired(desired: DesiredActivation) -> (r: &'static str)
    ensures
        r@ == desired_label(desired),
{
    match desired {
        DesiredActivation::Off => "Off",
        DesiredActivation::On => "On",
    }
}

fn label_runtime(runtime: ActivationRuntime) -> (r: &'static str)
    ensures
        r@ == runtime_label(runtime),
{
    match runtime {
        ActivationRuntime::Offline => "Offline",
        ActivationRuntime::ReactivationRequired => "ReactivationRequired",
        ActivationRuntime::Online => "Online",
        ActivationRuntime::RecoveryRequired => "RecoveryRequired",
    }
}

/// What is shown of one workspace; a workspace without a selection is told how to make one.
pub open spec fn activation_report(v: ActivationView) -> Seq<char> {
    let report = "Workspace "@ + v.workspace_id + ": "@ + desired_label(v.desired) + " ("@
        + runtime_label(v.runtime) + "), revision "@ + decimal(v.revision as nat)
        + "\nRepository: "@ + v.repository_root + "\n"@;
    if v.selection is None {
        report
            + "First setup: workspace set on --supervisor-kind KIND --supervisor-model MODEL --worker ID=PROFILE\n"@
    } else {
        report
    }
}

/// Writes what is shown of one workspace.
pub fn report_activation(view: &WorkspaceActivationView) -> (r: String)
    ensures
        r@ == activation_report(view@),
{
    let revision = decimal_text(view.revision);
    let mut r = join3("Workspace ", view.workspace_id.as_str(), ": ");
    r.append(label_desired(view.desired));
    r.append(" (");
    r.append(label_runtime(view.runtime));
    r.append("), revision ");
    r.append(revision.as_str());
    r.append("\nRepository: ");
    r.append(view.repository_root.as_str());
    r.append("\n");
    if view.selection.is_none() {
        r.append(
            "First setup: workspace set on --supervisor-kind KIND --supervisor-model MODEL --worker ID=PROFILE\n",
        );
    }
    r
}

/// What is shown of one workspace in a list.
pub open spec fn activation_line(v: ActivationView) -> Seq<char> {
    v.workspace_id + "\t"@ + desired_label(v.desired) + "\t"@ + runtime_label(v.runtime)
        + "\trevision "@ + decimal(v.revision as nat) + "\t"@ + v.repository_root
}

/// Writes what is shown of one workspace in a list.
pub fn line_of(view: &WorkspaceActivationView) -> (r: String)
    ensures
        r@ == activation_line(view@),
{
    let revision = decimal_text(view.revision);
    let mut r = join3(view.workspace_id.as_str(), "\t", label_desired(view.desired));
    r.append("\t");
    r.append(label_runtime(view.runtime));
    r.append("\trevision ");
    r.append(revision.as_str());
    r.append("\t");
    r.append(view.repository_root.as_str());
    r
}

} // verus!

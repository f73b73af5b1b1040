//! What a workspace hands to the panes, files and Workers that it starts.
use vstd::prelude::*;

use crate::activation::{ActivationView, DesiredActivation, Selection, WorkspaceActivationView};
use crate::attachment::{
    corruption, opened_refusal, source_refusal, storage_path, AttachmentRecord, FileStatus,
    StoredFile,
};
use crate::contract::{HarnessKind, HarnessTier};
use crate::digest::digest_form;
use crate::herdr::PaneRequest;
use crate::identity::HarnessId;
use crate::mcp::{config_dir, inline_refusal, is_selected, selected_profile, worker_pane, McpServer};
use crate::paths::{below, components, parent};
use crate::select::{first_found, first_missing, first_says, first_where, some_where};
use crate::text::{byte_count, contains_text, decimal, stands_at};
use crate::text_laws::parents_lack_the_last_component;
use crate::views::{is_ready_worker, workers_ready, HarnessStatusView};
use crate::workspace::{
    activation_line, activation_report, asked_selection, desired_label, file_name, is_unmapped,
    mapping, runtime_label, shortened, socket_path, supervisor_pane_request,
};

verus! {

// ---------------------------------------------------------------------------------------------
// Panes
// ---------------------------------------------------------------------------------------------

/// A variable of a pane has a value.
pub open spec fn sets(pane: PaneRequest, name: Seq<char>, value: Seq<char>) -> bool {
    exists|i: int| 0 <= i < pane.env.len() && #[trigger] pane.env[i] == (name, value)
}

/// The pane of a Worker opens in its workspace, beside the others, and knows the Coordinator's
/// executable, socket and state, its own directory and its own Session.
pub proof fn worker_panes_know_their_session(
    server: McpServer,
    state_dir: Seq<char>,
    bearer: Seq<char>,
    cwd: Seq<char>,
    workspace_id: Seq<char>,
    binary: Seq<char>,
)
    ensures
        ({
            let pane = worker_pane(server, state_dir, bearer, cwd, workspace_id, binary);
            &&& sets(pane, "HERDR_COORDINATOR_BIN"@, binary)
            &&& sets(pane, "HERDR_COORDINATOR_SOCKET"@, server.socket@)
            &&& sets(pane, "HERDR_COORDINATOR_STATE_DIR"@, state_dir)
            &&& sets(pane, "HERDR_HARNESS_CWD"@, cwd)
            &&& sets(pane, "HERDR_HARNESS_SESSION_ID"@, bearer)
            &&& pane.workspace_id == Some(workspace_id)
            &&& !pane.focus
        }),
{
    let pane = worker_pane(server, state_dir, bearer, cwd, workspace_id, binary);
    assert(pane.env[0] == ("HERDR_COORDINATOR_BIN"@, binary));
    assert(pane.env[1] == ("HERDR_COORDINATOR_SOCKET"@, server.socket@));
    assert(pane.env[2] == ("HERDR_COORDINATOR_STATE_DIR"@, state_dir));
    assert(pane.env[3] == ("HERDR_HARNESS_CWD"@, cwd));
    assert(pane.env[4] == ("HERDR_HARNESS_SESSION_ID"@, bearer));
}

/// The pane of the Supervisor opens in its workspace, in front of the user, and knows the
/// Coordinator's executable, socket and state, and its own capability.
pub proof fn supervisor_panes_know_their_capability(
    bearer: Seq<char>,
    workspace_id: Seq<char>,
    state_dir: Seq<char>,
    socket: Seq<char>,
    binary: Seq<char>,
)
    ensures
        ({
            let pane = supervisor_pane_request(bearer, workspace_id, state_dir, socket, binary);
            &&& sets(pane, "HERDR_COORDINATOR_BIN"@, binary)
            &&& sets(pane, "HERDR_COORDINATOR_SOCKET"@, socket)
            &&& sets(pane, "HERDR_COORDINATOR_STATE_DIR"@, state_dir)
            &&& sets(pane, "HERDR_SUPERVISOR_CAPABILITY"@, bearer)
            &&& pane.workspace_id == Some(workspace_id)
            &&& pane.focus
        }),
{
    let pane = supervisor_pane_request(bearer, workspace_id, state_dir, socket, binary);
    assert(pane.env[0] == ("HERDR_COORDINATOR_BIN"@, binary));
    assert(pane.env[1] == ("HERDR_COORDINATOR_SOCKET"@, socket));
    assert(pane.env[2] == ("HERDR_COORDINATOR_STATE_DIR"@, state_dir));
    assert(pane.env[3] == ("HERDR_SUPERVISOR_CAPABILITY"@, bearer));
}

// ---------------------------------------------------------------------------------------------
// Selections
// ---------------------------------------------------------------------------------------------

/// A Worker is started with the profile that its workspace selects for it first, where the
/// workspace is on and selects one.
pub proof fn workers_get_their_selected_profile(
    view: WorkspaceActivationView,
    id: Seq<char>,
    selection: Selection,
    i: int,
)
    requires
        view@.selection == Some(selection),
    ensures
        view.desired != DesiredActivation::On ==> selected_profile(Some(view), id) is Err,
        view.desired == DesiredActivation::On && 0 <= i < selection.workers.len()
            && selection.workers[i].0 == id && (forall|j: int|
            0 <= j < i ==> (#[trigger] selection.workers[j]).0 != id) ==> selected_profile(
            Some(view),
            id,
        ) == Ok::<Seq<char>, Seq<char>>(selection.workers[i].1),
        (forall|j: int|
            0 <= j < selection.workers.len() ==> (#[trigger] selection.workers[j]).0 != id)
            ==> selected_profile(Some(view), id) is Err,
        selected_profile(None, id) is Err,
{
    let p = is_selected(id);
    if 0 <= i < selection.workers.len() && selection.workers[i].0 == id && (forall|j: int|
        0 <= j < i ==> (#[trigger] selection.workers[j]).0 != id) {
        first_found(selection.workers, p, i);
    }
    if forall|j: int|
        0 <= j < selection.workers.len() ==> (#[trigger] selection.workers[j]).0 != id {
        first_missing(selection.workers, p);
    }
}

/// A command that names no choice asks for none; one that names any has to name a kind and a model,
/// and every Worker with a profile, and asks for exactly those.
pub proof fn choices_are_asked_for_whole(
    kind: Option<HarnessKind>,
    model: Option<Seq<char>>,
    effort: Option<Seq<char>>,
    workers: Seq<Seq<char>>,
    i: int,
)
    ensures
        ({
            let answer = asked_selection(kind, model, effort, workers);
            let none = kind is None && model is None && effort is None && workers.len() == 0;
            let mapped = forall|j: int|
                0 <= j < workers.len() ==> mapping(#[trigger] workers[j]) is Some;
            &&& none ==> answer == Ok::<Option<Selection>, Seq<char>>(None)
            &&& !none ==> answer is Ok == (kind is Some && model is Some && mapped)
            &&& !none && answer is Ok ==> {
                let s = answer->Ok_0->0;
                &&& answer->Ok_0 is Some
                &&& s.schema_version == 1
                &&& s.supervisor.kind == kind->0
                &&& s.supervisor.model == model->0
                &&& s.supervisor.reasoning_effort == effort
                &&& s.workers.len() == workers.len()
                &&& 0 <= i < workers.len() ==> mapping(workers[i]) == Some(s.workers[i])
            }
        }),
{
    let p = is_unmapped();
    first_says(workers, p);
    if forall|j: int| 0 <= j < workers.len() ==> mapping(#[trigger] workers[j]) is Some {
        assert forall|j: int| 0 <= j < workers.len() implies !p(#[trigger] workers[j]) by {
            assert(mapping(workers[j]) is Some);
        }
        first_missing(workers, p);
    }
    if first_where(workers, p) is None {
        assert forall|j: int| 0 <= j < workers.len() implies mapping(
            #[trigger] workers[j],
        ) is Some by {
            assert(!p(workers[j]));
        }
    }
}

/// A Worker with a name is online and not about to stop.
pub open spec fn is_up(status: Seq<HarnessStatusView>, name: Seq<char>) -> bool {
    exists|s: int|
        {
            &&& 0 <= s < status.len()
            &&& (#[trigger] status[s]).id@ == name
            &&& status[s].tier == HarnessTier::Worker
            &&& status[s].presence@ == "online"@
            &&& status[s].activity@ != "stopping"@
        }
}

proof fn ready_workers_are_up(status: Seq<HarnessStatusView>, name: Seq<char>)
    ensures
        some_where(status, is_ready_worker(name)) == is_up(status, name),
{
    let p = is_ready_worker(name);
    if some_where(status, p) {
        let s = choose|s: int| 0 <= s < status.len() && p(#[trigger] status[s]);
        assert(status[s].id@ == name);
    }
    if is_up(status, name) {
        let s = choose|s: int|
            {
                &&& 0 <= s < status.len()
                &&& (#[trigger] status[s]).id@ == name
                &&& status[s].tier == HarnessTier::Worker
                &&& status[s].presence@ == "online"@
                &&& status[s].activity@ != "stopping"@
            };
        assert(p(status[s]));
    }
}

/// The selected Workers are ready exactly where each of them is online and not about to stop.
pub proof fn selected_workers_are_ready_when_up(
    status: Seq<HarnessStatusView>,
    selected: Seq<HarnessId>,
)
    ensures
        workers_ready(status, selected) <==> forall|i: int|
            0 <= i < selected.len() ==> is_up(status, (#[trigger] selected[i])@),
{
    assert forall|i: int| 0 <= i < selected.len() implies some_where(
        status,
        is_ready_worker((#[trigger] selected[i])@),
    ) == is_up(status, selected[i]@) by {
        ready_workers_are_up(status, selected[i]@);
    }
}

// ---------------------------------------------------------------------------------------------
// Files
// ---------------------------------------------------------------------------------------------

proof fn short_names_begin_names(name: Seq<char>, n: nat)
    requires
        n <= name.len() + 1,
    ensures
        ({
            let s = shortened(name, n);
            &&& s.len() <= name.len()
            &&& s == name.take(s.len() as int)
            &&& s == name || byte_count(s) == 24
            &&& forall|k: int|
                n <= k <= name.len() && byte_count(#[trigger] name.take(k)) == 24 ==> byte_count(s)
                    == 24
        }),
    decreases name.len() + 1 - n,
{
    assert(name.take(name.len() as int) =~= name);
    if n <= name.len() {
        let head = name.take(n as int);
        if byte_count(head) == 24 {
            assert(head =~= name.take(head.len() as int));
        } else {
            short_names_begin_names(name, n + 1);
        }
    }
}

/// A workspace listens below the state of the plugin, two levels above its own state, under the
/// beginning of its name of 24 bytes, or under its whole name where no beginning has that length.
pub proof fn workspaces_listen_below_the_plugin(state_dir: Seq<char>, plugin: Seq<char>)
    requires
        file_name(state_dir) is Some,
        parent(state_dir) is Some,
        parent(parent(state_dir)->0) == Some(plugin),
    ensures
        ({
            let name = file_name(state_dir)->0;
            let short = shortened(name, 0);
            &&& socket_path(state_dir) == Ok::<Seq<char>, Seq<char>>(
                below(below(plugin, "s"@), short + ".sock"@),
            )
            &&& name == components(state_dir).last()
            &&& components(plugin) == components(state_dir).drop_last().drop_last()
            &&& short.len() <= name.len()
            &&& short == name.take(short.len() as int)
            &&& short == name || byte_count(short) == 24
        }),
{
    parents_lack_the_last_component(state_dir);
    parents_lack_the_last_component(parent(state_dir)->0);
    short_names_begin_names(file_name(state_dir)->0, 0);
}

/// The configuration is where the plugin is told; else in the user's configuration, where that is
/// known; else beside the plugin's state.
pub proof fn configuration_is_looked_for_in_turn(
    state: Seq<char>,
    told: Seq<char>,
    xdg: Option<Seq<char>>,
    home: Option<Seq<char>>,
)
    ensures
        config_dir(state, Some(told), xdg, home) == told,
        config_dir(state, None, Some(told), home) == config_dir(state, None, Some(told), None),
        config_dir(state, None, None, Some(told)) == config_dir(
            state,
            None,
            Some(below(told, ".config"@)),
            home,
        ),
        config_dir(state, None, None, None) == below(state, "config"@),
{
}

/// A file is taken as an Attachment exactly where it is a regular file, no link, and readable; and
/// it has to be the same file when it is opened.
pub proof fn readable_files_are_attached(path: Seq<char>, found: FileStatus, opened: FileStatus)
    ensures
        source_refusal(path, found) is None <==> !found.symlink && found.regular && found.mode
            & 0o444 != 0,
        opened_refusal(path, found, opened) is None <==> opened.regular && found.device
            == opened.device && found.inode == opened.inode,
{
}

/// A stored Attachment is intact exactly where it stands under its own identity as a regular file
/// of the size and the digest on record.
pub proof fn intact_attachments_have_size_and_digest(a: AttachmentRecord, stored: StoredFile)
    ensures
        corruption(a, stored) is None <==> {
            &&& components(a.storage_path) == components(storage_path(a.id))
            &&& stored is Regular
            &&& stored->Regular_content.read().len() == a.size_bytes
            &&& digest_form(stored->Regular_content.read()) == a.digest
        },
{
}

/// A text becomes an Attachment exactly where it has 1 to 524288 bytes and both its media type and
/// its name have 1 to 255.
pub proof fn short_texts_are_attached(
    content: Seq<char>,
    media_type: Seq<char>,
    name: Seq<char>,
)
    ensures
        inline_refusal(content, media_type, name) is None <==> {
            &&& content.len() > 0
            &&& byte_count(content) <= 524_288
            &&& media_type.len() > 0
            &&& byte_count(media_type) <= 255
            &&& name.len() > 0
            &&& byte_count(name) <= 255
        },
{
}

// ---------------------------------------------------------------------------------------------
// Reports
// ---------------------------------------------------------------------------------------------

proof fn parts_stand_between(a: Seq<char>, part: Seq<char>, b: Seq<char>)
    ensures
        contains_text(a + part + b, part),
{
    let s = a + part + b;
    let at = a.len() as int;
    assert(s.subrange(at, at + part.len() as int) =~= part);
    assert(stands_at(s, part, at));
}

/// A report names the workspace, what it is set to and how it runs, its revision and its
/// repository, and tells how to select Harnesses where none are.
pub proof fn reports_name_their_workspace(v: ActivationView)
    ensures
        ({
            let report = activation_report(v);
            let line = activation_line(v);
            &&& contains_text(report, "Workspace "@ + v.workspace_id + ": "@)
            &&& contains_text(report, ", revision "@ + decimal(v.revision as nat))
            &&& contains_text(report, "\nRepository: "@ + v.repository_root + "\n"@)
            &&& contains_text(line, v.workspace_id + "\t"@)
            &&& contains_text(line, "\trevision "@ + decimal(v.revision as nat))
            &&& contains_text(line, "\t"@ + v.repository_root)
            &&& v.selection is None ==> contains_text(
                report,
                "First setup: workspace set on --supervisor-kind KIND --supervisor-model MODEL --worker ID=PROFILE\n"@,
            )
        }),
{
    let report = activation_report(v);
    let line = activation_line(v);
    let end = if v.selection is None {
        "First setup: workspace set on --supervisor-kind KIND --supervisor-model MODEL --worker ID=PROFILE\n"@
    } else {
        Seq::empty()
    };
    let (d, r) = (desired_label(v.desired), runtime_label(v.runtime));
    let n = decimal(v.revision as nat);
    let nothing = Seq::<char>::empty();
    reveal_strlit("), revision ");
    reveal_strlit(", revision ");
    assert("), revision "@ =~= seq![')'] + ", revision "@);
    let first = "Workspace "@ + v.workspace_id + ": "@;
    let rest = d + " ("@ + r + "), revision "@ + n + "\nRepository: "@ + v.repository_root + "\n"@
        + end;
    assert(report =~= nothing + first + rest);
    parts_stand_between(nothing, first, rest);
    let a = first + d + " ("@ + r + seq![')'];
    let part = ", revision "@ + n;
    let b = "\nRepository: "@ + v.repository_root + "\n"@ + end;
    assert(report =~= a + part + b);
    parts_stand_between(a, part, b);
    let root = "\nRepository: "@ + v.repository_root + "\n"@;
    assert(report =~= (a + part) + root + end);
    parts_stand_between(a + part, root, end);
    assert(report =~= (a + part + root) + end + nothing);
    parts_stand_between(a + part + root, end, nothing);
    reveal_strlit("Workspace ");
    reveal_strlit("\trevision ");
    let head = v.workspace_id + "\t"@;
    let tail = d + "\t"@ + r + "\trevision "@ + n + "\t"@ + v.repository_root;
    assert(line =~= nothing + head + tail);
    parts_stand_between(nothing, head, tail);
    let before = v.workspace_id + "\t"@ + d + "\t"@ + r;
    let middle = "\trevision "@ + n;
    let last = "\t"@ + v.repository_root;
    assert(line =~= before + middle + last);
    parts_stand_between(before, middle, last);
    assert(line =~= (before + middle) + last + nothing);
    parts_stand_between(before + middle, last, nothing);
}

} // verus!

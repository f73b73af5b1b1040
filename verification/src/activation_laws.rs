//! What becomes of a request to switch a workspace on or off.
use vstd::prelude::*;

use crate::activation::{
    is_busy_worker, resolve, selection_refusal, shutdown_blocker, ActivationFault,
    ActivationRuntime, ActivationView, CanonicalRoot, DesiredActivation, Resolved, Selection,
    WorkspaceIdentity,
};
use crate::activation::registry::{
    is_rival, is_workspace, lookup, record, set_activation, written, written_is_seen, Activation,
    Request, LAST_REVISION,
};
use crate::contract::{Activity, HarnessKind, HarnessTier, TaskState};
use crate::ledger::Model;
use crate::ledger::shutdown::{is_active_hold, is_unfinished};
use crate::select::{first_found, first_missing, first_says, first_where, some_where};
use crate::text::{blank, byte_count};

verus! {

/// A workspace stands at a place of the table.
pub open spec fn is_row(rows: Seq<Activation>, id: Resolved, i: int) -> bool {
    &&& 0 <= i < rows.len()
    &&& rows[i].session_socket == id.session_socket
    &&& rows[i].workspace_id == id.workspace_id
    &&& forall|j: int|
        0 <= j < i ==> (#[trigger] rows[j]).session_socket != id.session_socket
            || rows[j].workspace_id != id.workspace_id
}

/// A workspace stands nowhere in the table.
pub open spec fn is_unset(rows: Seq<Activation>, id: Resolved) -> bool {
    forall|j: int|
        0 <= j < rows.len() ==> (#[trigger] rows[j]).session_socket != id.session_socket
            || rows[j].workspace_id != id.workspace_id
}

proof fn rows_are_found(rows: Seq<Activation>, id: Resolved, i: int)
    ensures
        is_row(rows, id, i) ==> first_where(
            rows,
            is_workspace(id.session_socket, id.workspace_id),
        ) == Some(i),
        is_unset(rows, id) ==> first_where(
            rows,
            is_workspace(id.session_socket, id.workspace_id),
        ) is None,
{
    let p = is_workspace(id.session_socket, id.workspace_id);
    if is_row(rows, id, i) {
        first_found(rows, p, i);
    }
    if is_unset(rows, id) {
        first_missing(rows, p);
    }
}

/// A workspace shows what its row says; one that was never set is off, offline and without a
/// selection, at revision zero; and one that was set on another root is not shown.
pub proof fn workspaces_show_their_row(rows: Seq<Activation>, id: Resolved, i: int)
    ensures
        is_unset(rows, id) ==> {
            let v = lookup(rows, id)->Ok_0;
            &&& lookup(rows, id) is Ok
            &&& v.revision == 0
            &&& v.desired == DesiredActivation::Off
            &&& v.runtime == ActivationRuntime::Offline
            &&& v.selection is None
            &&& v.workspace_id == id.workspace_id
            &&& v.repository_root == id.canonical_root
            &&& v.state_dir == id.state_dir
        },
        is_row(rows, id, i) && rows[i].canonical_root == id.canonical_root ==> {
            let v = lookup(rows, id)->Ok_0;
            &&& lookup(rows, id) is Ok
            &&& v.revision == rows[i].revision
            &&& v.desired == rows[i].desired
            &&& v.runtime == rows[i].runtime
            &&& v.selection == rows[i].selection
            &&& v.diagnostic == rows[i].diagnostic
            &&& v.workspace_id == id.workspace_id
            &&& v.repository_root == id.canonical_root
            &&& v.state_dir == rows[i].state_dir
        },
        is_row(rows, id, i) && rows[i].canonical_root != id.canonical_root ==> lookup(rows, id)
            == Err::<ActivationView, ActivationFault>(
            ActivationFault::IdentityMismatch { workspace_id: id.workspace_id },
        ),
{
    rows_are_found(rows, id, i);
}

/// A workspace that is switched shows what was asked for at the next revision: to be reactivated
/// where it is on, offline where it is off, with the selection asked for or the one that it had,
/// and without a diagnostic. A request that asks for what is there changes nothing.
pub proof fn switched_workspaces_show_it(
    rows: Seq<Activation>,
    id: Resolved,
    safe: Result<(), ActivationFault>,
    request: Request,
)
    requires
        lookup(rows, id) is Ok,
        set_activation(rows, id, safe, request) is Ok,
    ensures
        ({
            let before = lookup(rows, id)->Ok_0;
            let next = set_activation(rows, id, safe, request)->Ok_0;
            let after = lookup(next, id)->Ok_0;
            let same = before.desired == request.desired && (request.selection is None
                || request.selection == before.selection);
            &&& same ==> next == rows
            &&& !same ==> {
                &&& lookup(next, id) is Ok
                &&& after.desired == request.desired
                &&& after.revision == before.revision + 1
                &&& after.diagnostic is None
                &&& request.desired == DesiredActivation::On ==> after.runtime
                    == ActivationRuntime::ReactivationRequired
                &&& request.desired == DesiredActivation::Off ==> after.runtime
                    == ActivationRuntime::Offline
                &&& request.selection is Some ==> after.selection == request.selection
                &&& request.selection is None ==> after.selection == before.selection
                &&& after.repository_root == id.canonical_root
                &&& after.state_dir == before.state_dir
            }
            &&& request.expected_revision is Some ==> request.expected_revision->0
                == before.revision
        }),
{
    let before = lookup(rows, id)->Ok_0;
    written_is_seen(rows, id, written(id, before, request));
}

/// A selection is complete: of the one schema version, with a model, at least one Worker and no
/// Worker twice, and with both policies exactly where the Supervisor is Codex.
pub open spec fn is_complete(s: Selection) -> bool {
    &&& s.schema_version == 1
    &&& !blank(s.supervisor.model)
    &&& s.workers.len() > 0
    &&& forall|i: int, j: int|
        0 <= i < j < s.workers.len() ==> (#[trigger] s.workers[i]).0 != (#[trigger] s.workers[j]).0
    &&& s.supervisor.kind == HarnessKind::Codex ==> s.supervisor.codex_approval_policy is Some
        && s.supervisor.codex_sandbox_mode is Some
    &&& s.supervisor.kind != HarnessKind::Codex ==> s.supervisor.codex_approval_policy is None
        && s.supervisor.codex_sandbox_mode is None
}

/// A selection is accepted exactly where it is complete.
pub proof fn complete_selections_are_accepted(s: Selection)
    ensures
        selection_refusal(s) is None == is_complete(s),
{
}

/// A workspace is switched on with a complete selection, where no other is on for its repository;
/// it is switched off where that is safe; and a request on another revision than the present one is
/// refused.
pub proof fn workspaces_are_switched_where_they_may(
    rows: Seq<Activation>,
    id: Resolved,
    safe: Result<(), ActivationFault>,
    request: Request,
    k: int,
)
    requires
        lookup(rows, id) is Ok,
        lookup(rows, id)->Ok_0.desired != request.desired,
        lookup(rows, id)->Ok_0.revision < LAST_REVISION,
    ensures
        ({
            let before = lookup(rows, id)->Ok_0;
            let answer = set_activation(rows, id, safe, request);
            let stale = request.expected_revision is Some && request.expected_revision->0
                != before.revision;
            let on = request.desired == DesiredActivation::On;
            let chosen = if request.selection is Some {
                request.selection
            } else {
                before.selection
            };
            let rival = 0 <= k < rows.len() && rows[k].canonical_root == id.canonical_root
                && rows[k].desired == DesiredActivation::On && rows[k].key() != id.identity_key;
            &&& stale ==> answer == Err::<Seq<Activation>, ActivationFault>(
                ActivationFault::RevisionConflict {
                    expected: request.expected_revision->0,
                    actual: before.revision,
                },
            )
            &&& !stale && on && chosen is None ==> answer == Err::<
                Seq<Activation>,
                ActivationFault,
            >(ActivationFault::SelectionRequired)
            &&& !stale && on && chosen is Some && !is_complete(chosen->0) ==> answer is Err
            &&& !stale && on && rival ==> answer is Err
            &&& !stale && !on && safe is Err ==> answer == Err::<Seq<Activation>, ActivationFault>(
                safe->Err_0,
            )
            &&& !stale && !on && safe is Ok && !is_unset(rows, id) ==> answer is Ok
            &&& !stale && on && chosen is Some && is_complete(chosen->0) && !is_unset(rows, id) && (
            forall|j: int|
                0 <= j < rows.len() ==> (#[trigger] rows[j]).canonical_root != id.canonical_root
                    || rows[j].desired != DesiredActivation::On || rows[j].key()
                    == id.identity_key) ==> answer is Ok
        }),
{
    let p = is_rival(id.canonical_root, id.identity_key);
    first_says(rows, p);
    first_says(rows, is_workspace(id.session_socket, id.workspace_id));
    if 0 <= k < rows.len() && rows[k].canonical_root == id.canonical_root && rows[k].desired
        == DesiredActivation::On && rows[k].key() != id.identity_key {
        assert(p(rows[k]));
    }
    if forall|j: int|
        0 <= j < rows.len() ==> (#[trigger] rows[j]).canonical_root != id.canonical_root
            || rows[j].desired != DesiredActivation::On || rows[j].key() == id.identity_key {
        assert forall|j: int| 0 <= j < rows.len() implies !p(#[trigger] rows[j]) by {}
        first_missing(rows, p);
    }
    if first_where(rows, is_workspace(id.session_socket, id.workspace_id)) is None {
        assert forall|j: int| 0 <= j < rows.len() implies (#[trigger] rows[j]).session_socket
            != id.session_socket || rows[j].workspace_id != id.workspace_id by {
            assert(!is_workspace(id.session_socket, id.workspace_id)(rows[j]));
        }
        assert(is_unset(rows, id));
    }
}

/// What became of a workspace is recorded at the next revision, and what was asked for stays.
pub proof fn outcomes_are_recorded(
    rows: Seq<Activation>,
    id: Resolved,
    runtime: ActivationRuntime,
    diagnostic: Option<Seq<char>>,
    i: int,
)
    requires
        is_row(rows, id, i),
        lookup(rows, id) is Ok,
        record(rows, id, runtime, diagnostic).1 is Ok,
    ensures
        ({
            let (next, answer) = record(rows, id, runtime, diagnostic);
            let (before, after) = (rows[i], next[i]);
            &&& next.len() == rows.len()
            &&& after.runtime == runtime
            &&& after.diagnostic == diagnostic
            &&& after.revision == before.revision + 1
            &&& after.desired == before.desired
            &&& after.selection == before.selection
            &&& answer->Ok_0.runtime == runtime
            &&& answer->Ok_0.diagnostic == diagnostic
            &&& answer->Ok_0.revision == before.revision + 1
            &&& answer->Ok_0.desired == before.desired
            &&& diagnostic is Some ==> byte_count(diagnostic->0) <= 16_384
        }),
{
    rows_are_found(rows, id, i);
    let next = record(rows, id, runtime, diagnostic).0;
    assert forall|j: int| 0 <= j < i implies (#[trigger] next[j]).session_socket
        != id.session_socket || next[j].workspace_id != id.workspace_id by {
        assert(rows[j].session_socket != id.session_socket || rows[j].workspace_id
            != id.workspace_id);
    }
    assert(is_row(next, id, i));
    rows_are_found(next, id, i);
}

/// A workspace may be switched off safely exactly where every Task ended, no Hold is in force and
/// every Worker whose Session lives is idle.
pub proof fn quiet_workspaces_are_safe_to_disable(m: Model)
    ensures
        shutdown_blocker(m) is None == ((forall|i: int|
            0 <= i < m.tasks.len() ==> (#[trigger] m.tasks[i]).state == TaskState::Approved
                || m.tasks[i].state == TaskState::Cancelled || m.tasks[i].state
                == TaskState::Failed) && (forall|h: int|
            0 <= h < m.holds.len() ==> (#[trigger] m.holds[h]).cleared) && (forall|s: int|
            0 <= s < m.sessions.len() ==> (#[trigger] m.sessions[s]).tier != HarnessTier::Worker
                || m.sessions[s].ended || m.sessions[s].activity == Activity::Idle)),
{
    if shutdown_blocker(m) is None {
        assert forall|i: int| 0 <= i < m.tasks.len() implies (#[trigger] m.tasks[i]).state
            == TaskState::Approved || m.tasks[i].state == TaskState::Cancelled || m.tasks[i].state
            == TaskState::Failed by {
            assert(!is_unfinished()(m.tasks[i]));
        }
        assert forall|h: int| 0 <= h < m.holds.len() implies (#[trigger] m.holds[h]).cleared by {
            assert(!is_active_hold()(m.holds[h]));
        }
        assert forall|s: int| 0 <= s < m.sessions.len() implies (#[trigger] m.sessions[s]).tier
            != HarnessTier::Worker || m.sessions[s].ended || m.sessions[s].activity
            == Activity::Idle by {
            assert(!is_busy_worker()(m.sessions[s]));
        }
    } else if some_where(m.tasks, is_unfinished()) {
        let i = choose|i: int| 0 <= i < m.tasks.len() && is_unfinished()(#[trigger] m.tasks[i]);
        assert(m.tasks[i].state != TaskState::Approved);
    } else if some_where(m.holds, is_active_hold()) {
        let h = choose|h: int| 0 <= h < m.holds.len() && is_active_hold()(#[trigger] m.holds[h]);
        assert(!m.holds[h].cleared);
    } else {
        let s = choose|s: int|
            0 <= s < m.sessions.len() && is_busy_worker()(#[trigger] m.sessions[s]);
        assert(m.sessions[s].tier == HarnessTier::Worker);
    }
}

/// An identity is resolved where it names a workspace of at most 256 bytes, a socket and a
/// directory; it keeps those, and gets a place of its own by its key.
pub proof fn identities_are_resolved(
    plugin_state_dir: Seq<char>,
    identity: WorkspaceIdentity,
    root: CanonicalRoot,
)
    ensures
        ({
            let answer = resolve(plugin_state_dir, identity, root);
            let named = !blank(identity.workspace_id@) && byte_count(identity.workspace_id@) <= 256;
            &&& answer is Ok == (named && root is Directory && !blank(identity.session_socket@))
            &&& answer is Ok ==> answer->Ok_0.session_socket == identity.session_socket@
                && answer->Ok_0.workspace_id == identity.workspace_id@
                && answer->Ok_0.canonical_root == root->Directory_path@
        }),
{
}

} // verus!

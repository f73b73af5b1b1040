//! The registry of workspace activations.
use vstd::prelude::*;

use crate::activation::{
    copy_selection, identity_key, key_of, resolve, resolve_identity, same_selection,
    selection_refusal, selection_view, unset_view, validate_selection, ActivationError,
    ActivationFault, ActivationRuntime, ActivationView, CanonicalRoot, DesiredActivation, Resolved,
    ResolvedIdentity, Selection, SetActivationRequest, WorkspaceActivationView, WorkspaceIdentity,
    WorkspaceSelection,
};
use crate::contract::SCHEMA_VERSION;
use crate::select::{
    count_step, count_where, first_found, first_missing, first_says, first_where, update_where,
};
use crate::paths::{comes_before, one_precedes, precedes, precedes_passes_on};
use crate::text::{byte_count, byte_len, copy_text, optional_text, same_text};

verus! {

/// The greatest revision that storage keeps.
pub const LAST_REVISION: u64 = 9223372036854775807;

/// The longest diagnostic, in bytes.
pub const MAX_DIAGNOSTIC_BYTES: usize = 16384;

/// A stored activation.
#[derive(Debug)]
pub struct ActivationRow {
    pub session_socket: String,
    pub workspace_id: String,
    pub canonical_root: String,
    pub revision: u64,
    pub desired: DesiredActivation,
    pub runtime: ActivationRuntime,
    pub selection: Option<WorkspaceSelection>,
    pub diagnostic: Option<String>,
    pub state_dir: String,
}

/// What an [`ActivationRow`] says.
pub struct Activation {
    pub session_socket: Seq<char>,
    pub workspace_id: Seq<char>,
    pub canonical_root: Seq<char>,
    pub revision: u64,
    pub desired: DesiredActivation,
    pub runtime: ActivationRuntime,
    pub selection: Option<Selection>,
    pub diagnostic: Option<Seq<char>>,
    pub state_dir: Seq<char>,
}

impl View for ActivationRow {
    type V = Activation;

    open spec fn view(&self) -> Activation {
        Activation {
            session_socket: self.session_socket@,
            workspace_id: self.workspace_id@,
            canonical_root: self.canonical_root@,
            revision: self.revision,
            desired: self.desired,
            runtime: self.runtime,
            selection: selection_view(self.selection),
            diagnostic: optional_text(self.diagnostic),
            state_dir: self.state_dir@,
        }
    }
}

pub open spec fn activations(rows: Seq<ActivationRow>) -> Seq<Activation> {
    Seq::new(rows.len(), |i: int| rows[i]@)
}

impl Activation {
    /// The key of the workspace.
    pub open spec fn key(self) -> Seq<char> {
        identity_key(self.session_socket, self.workspace_id)
    }

    /// The public projection.
    pub open spec fn shown(self) -> ActivationView {
        ActivationView {
            schema_version: SCHEMA_VERSION,
            workspace_id: self.workspace_id,
            repository_root: self.canonical_root,
            revision: self.revision,
            desired: self.desired,
            runtime: self.runtime,
            selection: self.selection,
            diagnostic: self.diagnostic,
            state_dir: self.state_dir,
        }
    }
}

// ---------------------------------------------------------------------------------------------
// The table
// ---------------------------------------------------------------------------------------------

/// Workspaces by their sockets, then by their names.
pub open spec fn ordered(socket: Seq<char>, name: Seq<char>, socket2: Seq<char>, name2: Seq<char>) -> bool {
    precedes(socket, socket2) || (socket == socket2 && precedes(name, name2))
}

pub open spec fn row_ordered(a: Activation, b: Activation) -> bool {
    ordered(a.session_socket, a.workspace_id, b.session_socket, b.workspace_id)
}

/// Two rows that can stand in one table, in this order.
pub open spec fn compatible(a: Activation, b: Activation) -> bool {
    &&& row_ordered(a, b)
    &&& a.key() != b.key()
    &&& !(a.desired == DesiredActivation::On && b.desired == DesiredActivation::On
        && a.canonical_root == b.canonical_root)
}

/// A table: rows in order, one for each key, at most one enabled for each repository root, and
/// every row written at least once.
pub open spec fn table(rows: Seq<Activation>) -> bool {
    &&& forall|i: int, j: int|
        0 <= i < j < rows.len() ==> compatible(#[trigger] rows[i], #[trigger] rows[j])
    &&& forall|i: int| 0 <= i < rows.len() ==> 1 <= (#[trigger] rows[i]).revision <= LAST_REVISION
}

pub open spec fn is_workspace(socket: Seq<char>, name: Seq<char>) -> spec_fn(Activation) -> bool {
    |a: Activation| a.session_socket == socket && a.workspace_id == name
}

pub open spec fn is_after(socket: Seq<char>, name: Seq<char>) -> spec_fn(Activation) -> bool {
    |a: Activation| ordered(socket, name, a.session_socket, a.workspace_id)
}

pub open spec fn has_key(key: Seq<char>) -> spec_fn(Activation) -> bool {
    |a: Activation| a.key() == key
}

/// Another workspace that is enabled on a root.
pub open spec fn is_rival(root: Seq<char>, key: Seq<char>) -> spec_fn(Activation) -> bool {
    |a: Activation|
        a.canonical_root == root && a.desired == DesiredActivation::On && a.key() != key
}

pub open spec fn is_routed(state_dir: Seq<char>) -> spec_fn(Activation) -> bool {
    |a: Activation| a.state_dir == state_dir
}

/// The view of a workspace: off by default.
pub open spec fn lookup(rows: Seq<Activation>, id: Resolved) -> Result<ActivationView, ActivationFault> {
    match first_where(rows, is_workspace(id.session_socket, id.workspace_id)) {
        None => Ok(unset_view(id)),
        Some(i) => if rows[i].canonical_root != id.canonical_root {
            Err(ActivationFault::IdentityMismatch { workspace_id: id.workspace_id })
        } else {
            Ok(rows[i].shown())
        },
    }
}

/// A request, as plain values.
pub struct Request {
    pub desired: DesiredActivation,
    pub expected_revision: Option<u64>,
    pub selection: Option<Selection>,
}

impl View for SetActivationRequest {
    type V = Request;

    open spec fn view(&self) -> Request {
        Request {
            desired: self.desired,
            expected_revision: self.expected_revision,
            selection: selection_view(self.selection),
        }
    }
}

/// The selection that is saved by a request.
pub open spec fn saved_selection(current: ActivationView, request: Request) -> Option<Selection> {
    if request.selection is Some {
        request.selection
    } else {
        current.selection
    }
}

/// A request that asks for nothing new.
pub open spec fn already_set(current: ActivationView, request: Request) -> bool {
    current.desired == request.desired && (request.selection is None || request.selection
        == current.selection)
}

/// Why a new desired state is refused; `safe` says what makes it unsafe to disable.
pub open spec fn activation_refusal(
    rows: Seq<Activation>,
    id: Resolved,
    current: ActivationView,
    safe: Result<(), ActivationFault>,
    request: Request,
) -> Option<ActivationFault> {
    if request.desired == DesiredActivation::On {
        match saved_selection(current, request) {
            None => Some(ActivationFault::SelectionRequired),
            Some(s) => match selection_refusal(s) {
                Some(text) => Some(ActivationFault::InvalidSelection(text)),
                None => match first_where(rows, is_rival(id.canonical_root, id.identity_key)) {
                    Some(i) => Some(
                        ActivationFault::RepositoryAlreadyActive {
                            root: id.canonical_root,
                            workspace_id: rows[i].workspace_id,
                        },
                    ),
                    None => None,
                },
            },
        }
    } else {
        match safe {
            Ok(_) => None,
            Err(f) => Some(f),
        }
    }
}

/// The row that a request writes.
pub open spec fn written(id: Resolved, current: ActivationView, request: Request) -> Activation {
    Activation {
        session_socket: id.session_socket,
        workspace_id: id.workspace_id,
        canonical_root: id.canonical_root,
        revision: (current.revision + 1) as u64,
        desired: request.desired,
        runtime: if request.desired == DesiredActivation::On {
            ActivationRuntime::ReactivationRequired
        } else {
            ActivationRuntime::Offline
        },
        selection: saved_selection(current, request),
        diagnostic: None,
        state_dir: current.state_dir,
    }
}

/// The place of a new row.
pub open spec fn place(rows: Seq<Activation>, id: Resolved) -> int {
    match first_where(rows, is_after(id.session_socket, id.workspace_id)) {
        Some(i) => i,
        None => rows.len() as int,
    }
}

/// The table after a row was written.
pub open spec fn write(rows: Seq<Activation>, id: Resolved, row: Activation) -> Result<
    Seq<Activation>,
    ActivationFault,
> {
    match first_where(rows, is_workspace(id.session_socket, id.workspace_id)) {
        Some(i) => Ok(rows.update(i, row)),
        None => if first_where(rows, has_key(id.identity_key)) is Some {
            Err(
                ActivationFault::Storage(
                    "UNIQUE constraint failed: workspace_activations.identity_key"@,
                ),
            )
        } else {
            Ok(rows.insert(place(rows, id), row))
        },
    }
}

/// A desired state that is set: the table after it.
pub open spec fn set_activation(
    rows: Seq<Activation>,
    id: Resolved,
    safe: Result<(), ActivationFault>,
    request: Request,
) -> Result<Seq<Activation>, ActivationFault> {
    match lookup(rows, id) {
        Err(f) => Err(f),
        Ok(current) => if request.expected_revision is Some && request.expected_revision
            != Some(current.revision) {
            Err(
                ActivationFault::RevisionConflict {
                    expected: request.expected_revision->0,
                    actual: current.revision,
                },
            )
        } else if already_set(current, request) {
            Ok(rows)
        } else {
            match activation_refusal(rows, id, current, safe, request) {
                Some(f) => Err(f),
                None => if current.revision >= LAST_REVISION {
                    Err(
                        ActivationFault::Storage(
                            "out of range integral type conversion attempted"@,
                        ),
                    )
                } else {
                    write(rows, id, written(id, current, request))
                },
            }
        },
    }
}

/// The rows that a runtime outcome is recorded in.
pub open spec fn is_revision_of(state_dir: Seq<char>, revision: u64) -> spec_fn(Activation) -> bool {
    |a: Activation| a.state_dir == state_dir && a.revision == revision
}

/// The table after a runtime outcome was recorded.
pub open spec fn with_runtime(
    rows: Seq<Activation>,
    current: ActivationView,
    runtime: ActivationRuntime,
    diagnostic: Option<Seq<char>>,
) -> Seq<Activation> {
    update_where(
        rows,
        is_revision_of(current.state_dir, current.revision),
        |a: Activation|
            Activation { revision: (a.revision + 1) as u64, runtime, diagnostic, ..a },
    )
}

/// A runtime outcome: the table after it, and the view of the workspace.
pub open spec fn record(
    rows: Seq<Activation>,
    id: Resolved,
    runtime: ActivationRuntime,
    diagnostic: Option<Seq<char>>,
) -> (Seq<Activation>, Result<ActivationView, ActivationFault>) {
    match lookup(rows, id) {
        Err(f) => (rows, Err(f)),
        Ok(current) => if diagnostic is Some && byte_count(diagnostic->0) > MAX_DIAGNOSTIC_BYTES {
            (rows, Err(ActivationFault::Storage("activation diagnostic exceeds 16 KiB"@)))
        } else if current.revision >= LAST_REVISION {
            (
                rows,
                Err(
                    ActivationFault::Storage("out of range integral type conversion attempted"@),
                ),
            )
        } else {
            let next = with_runtime(rows, current, runtime, diagnostic);
            let changed = count_where(rows, is_revision_of(current.state_dir, current.revision));
            let seen = lookup(next, id);
            if changed == 1 {
                (next, seen)
            } else {
                (
                    next,
                    Err(
                        ActivationFault::RevisionConflict {
                            expected: current.revision,
                            actual: seen->Ok_0.revision,
                        },
                    ),
                )
            }
        },
    }
}

// ---------------------------------------------------------------------------------------------
// The registry
// ---------------------------------------------------------------------------------------------

/// All per-workspace activation state below one state directory.
#[derive(Debug)]
pub struct ActivationRegistry {
    plugin_state_dir: String,
    rows: Vec<ActivationRow>,
}

fn is_ordered(socket: &str, name: &str, socket2: &str, name2: &str) -> (r: bool)
    ensures
        r == ordered(socket@, name@, socket2@, name2@),
{
    comes_before(socket, socket2) || (same_text(socket, socket2) && comes_before(name, name2))
}

fn is_compatible(a: &ActivationRow, b: &ActivationRow) -> (r: bool)
    ensures
        r == compatible(a@, b@),
{
    let key = key_of(a.session_socket.as_str(), a.workspace_id.as_str());
    let key2 = key_of(b.session_socket.as_str(), b.workspace_id.as_str());
    is_ordered(
        a.session_socket.as_str(),
        a.workspace_id.as_str(),
        b.session_socket.as_str(),
        b.workspace_id.as_str(),
    ) && !same_text(key.as_str(), key2.as_str()) && !(a.desired == DesiredActivation::On
        && b.desired == DesiredActivation::On && same_text(
        a.canonical_root.as_str(),
        b.canonical_root.as_str(),
    ))
}

fn is_table(rows: &Vec<ActivationRow>) -> (r: bool)
    ensures
        r == table(activations(rows@)),
{
    let ghost v = activations(rows@);
    let mut i: usize = 0;
    while i < rows.len()
        invariant
            i <= rows.len(),
            v == activations(rows@),
            forall|x: int, y: int|
                0 <= x < i && x < y < v.len() ==> compatible(#[trigger] v[x], #[trigger] v[y]),
            forall|x: int| 0 <= x < i ==> 1 <= (#[trigger] v[x]).revision <= LAST_REVISION,
        decreases rows.len() - i,
    {
        if rows[i].revision == 0 || rows[i].revision > LAST_REVISION {
            assert(!(1 <= v[i as int].revision <= LAST_REVISION));
            return false;
        }
        let mut j: usize = i + 1;
        while j < rows.len()
            invariant
                i < j <= rows.len(),
                v == activations(rows@),
                forall|y: int| i < y < j ==> compatible(v[i as int], #[trigger] v[y]),
            decreases rows.len() - j,
        {
            if !is_compatible(&rows[i], &rows[j]) {
                assert(!compatible(v[i as int], v[j as int]));
                return false;
            }
            j += 1;
        }
        i += 1;
    }
    true
}

impl ActivationRow {
    /// The public projection.
    pub fn show(&self) -> (r: WorkspaceActivationView)
        ensures
            r@ == self@.shown(),
    {
        WorkspaceActivationView {
            schema_version: SCHEMA_VERSION,
            workspace_id: self.workspace_id.as_str().to_owned(),
            repository_root: self.canonical_root.as_str().to_owned(),
            revision: self.revision,
            desired: self.desired,
            runtime: self.runtime,
            selection: copy_saved(&self.selection),
            diagnostic: copy_text(&self.diagnostic),
            state_dir: self.state_dir.as_str().to_owned(),
        }
    }
}

fn copy_saved(s: &Option<WorkspaceSelection>) -> (r: Option<WorkspaceSelection>)
    ensures
        selection_view(r) == selection_view(*s),
{
    match s {
        Some(s) => Some(copy_selection(s)),
        None => None,
    }
}

fn same_saved(a: &Option<WorkspaceSelection>, b: &Option<WorkspaceSelection>) -> (r: bool)
    ensures
        r == (selection_view(*a) == selection_view(*b)),
{
    match (a, b) {
        (Some(a), Some(b)) => same_selection(a, b),
        (None, None) => true,
        _ => false,
    }
}

impl ActivationRegistry {
    /// The rows of the table.
    pub closed spec fn stored(self) -> Seq<ActivationRow> {
        self.rows@
    }

    /// The directory below which workspaces keep their state.
    pub closed spec fn base(self) -> Seq<char> {
        self.plugin_state_dir@
    }

    /// What the table says.
    pub open spec fn model(self) -> Seq<Activation> {
        activations(self.stored())
    }

    pub open spec fn wf(self) -> bool {
        table(self.model())
    }

    /// Opens the index on stored rows, which have to meet the constraints of the table.
    pub fn open(plugin_state_dir: String, rows: Vec<ActivationRow>) -> (r: Result<
        ActivationRegistry,
        ActivationError,
    >)
        ensures
            match r {
                Ok(registry) => {
                    &&& table(activations(rows@))
                    &&& registry.wf()
                    &&& registry.stored() == rows@
                    &&& registry.base() == plugin_state_dir@
                },
                Err(e) => !table(activations(rows@)) && e@ == ActivationFault::Storage(
                    "stored workspace activations break a constraint of their table"@,
                ),
            },
    {
        if is_table(&rows) {
            Ok(ActivationRegistry { plugin_state_dir, rows })
        } else {
            Err(
                ActivationError::Storage(
                    "stored workspace activations break a constraint of their table".to_owned(),
                ),
            )
        }
    }

    /// The rows, in order.
    pub fn rows(&self) -> (r: &Vec<ActivationRow>)
        ensures
            r@ == self.stored(),
    {
        &self.rows
    }

    fn find(&self, socket: &str, name: &str) -> (r: Option<usize>)
        ensures
            match r {
                Some(i) => first_where(self.model(), is_workspace(socket@, name@)) == Some(i as int)
                    && i < self.rows.len(),
                None => first_where(self.model(), is_workspace(socket@, name@)) is None,
            },
    {
        let ghost p = is_workspace(socket@, name@);
        let mut i: usize = 0;
        while i < self.rows.len()
            invariant
                i <= self.rows.len(),
                p == is_workspace(socket@, name@),
                forall|j: int| 0 <= j < i ==> !p(#[trigger] self.model()[j]),
            decreases self.rows.len() - i,
        {
            if same_text(self.rows[i].session_socket.as_str(), socket) && same_text(
                self.rows[i].workspace_id.as_str(),
                name,
            ) {
                proof {
                    first_found(self.model(), p, i as int);
                }
                return Some(i);
            }
            i += 1;
        }
        proof {
            first_missing(self.model(), p);
        }
        None
    }

    fn view_of(&self, id: &ResolvedIdentity) -> (r: Result<WorkspaceActivationView, ActivationError>)
        ensures
            match (r, lookup(self.model(), id@)) {
                (Ok(found), Ok(view)) => found@ == view,
                (Err(e), Err(f)) => e@ == f,
                _ => false,
            },
    {
        match self.find(id.session_socket.as_str(), id.workspace_id.as_str()) {
            None => Ok(id.default_view()),
            Some(i) => {
                if !same_text(self.rows[i].canonical_root.as_str(), id.canonical_root.as_str()) {
                    return Err(
                        ActivationError::IdentityMismatch {
                            workspace_id: id.workspace_id.as_str().to_owned(),
                        },
                    );
                }
                Ok(self.rows[i].show())
            },
        }
    }

    /// One workspace; an unknown identity is off by default.
    pub fn get(&self, identity: &WorkspaceIdentity, root: CanonicalRoot) -> (r: Result<
        WorkspaceActivationView,
        ActivationError,
    >)
        ensures
            match resolve(self.base(), *identity, root) {
                Err(f) => r is Err && r->Err_0@ == f,
                Ok(id) => match (r, lookup(self.model(), id)) {
                    (Ok(found), Ok(view)) => found@ == view,
                    (Err(e), Err(f)) => e@ == f,
                    _ => false,
                },
            },
    {
        match resolve_identity(self.plugin_state_dir.as_str(), identity, root) {
            Err(e) => Err(e),
            Ok(id) => self.view_of(&id),
        }
    }

    /// All known activations, by socket and name.
    pub fn list(&self) -> (r: Vec<WorkspaceActivationView>)
        ensures
            r.len() == self.model().len(),
            forall|i: int| 0 <= i < r.len() ==> (#[trigger] r@[i])@ == self.model()[i].shown(),
    {
        let mut r: Vec<WorkspaceActivationView> = Vec::new();
        let mut i: usize = 0;
        while i < self.rows.len()
            invariant
                i <= self.rows.len(),
                r.len() == i,
                forall|j: int| 0 <= j < i ==> (#[trigger] r@[j])@ == self.model()[j].shown(),
            decreases self.rows.len() - i,
        {
            r.push(self.rows[i].show());
            i += 1;
        }
        r
    }

    /// The activation routed to one private workspace state directory.
    pub fn find_by_state_dir(&self, state_dir: &str) -> (r: Result<
        Option<WorkspaceActivationView>,
        ActivationError,
    >)
        ensures
            count_where(self.model(), is_routed(state_dir@)) > 1 ==> r is Err && r->Err_0@
                == ActivationFault::Storage("multiple workspaces route to one state directory"@),
            count_where(self.model(), is_routed(state_dir@)) <= 1 ==> match first_where(
                self.model(),
                is_routed(state_dir@),
            ) {
                Some(i) => r is Ok && r->Ok_0 is Some && r->Ok_0->0@ == self.model()[i].shown(),
                None => r is Ok && r->Ok_0 is None,
            },
    {
        let ghost p = is_routed(state_dir@);
        let ghost v = self.model();
        let mut found: Option<usize> = None;
        let mut many = false;
        let mut i: usize = 0;
        assert(v.take(0).len() == 0);
        while i < self.rows.len()
            invariant
                i <= self.rows.len(),
                v == self.model(),
                p == is_routed(state_dir@),
                many == (count_where(v.take(i as int), p) > 1),
                match found {
                    Some(k) => {
                        &&& k < i
                        &&& p(v[k as int])
                        &&& forall|j: int| 0 <= j < k ==> !p(#[trigger] v[j])
                        &&& count_where(v.take(i as int), p) >= 1
                    },
                    None => {
                        &&& forall|j: int| 0 <= j < i ==> !p(#[trigger] v[j])
                        &&& count_where(v.take(i as int), p) == 0
                    },
                },
            decreases self.rows.len() - i,
        {
            proof {
                count_step(v, p, i as int);
            }
            if same_text(self.rows[i].state_dir.as_str(), state_dir) {
                assert(p(v[i as int]));
                match found {
                    Some(_) => {
                        many = true;
                    },
                    None => {
                        found = Some(i);
                    },
                }
            }
            i += 1;
        }
        assert(v.take(i as int) =~= v);
        if many {
            return Err(
                ActivationError::Storage(
                    "multiple workspaces route to one state directory".to_owned(),
                ),
            );
        }
        match found {
            Some(k) => {
                proof {
                    first_found(v, p, k as int);
                }
                Ok(Some(self.rows[k].show()))
            },
            None => {
                proof {
                    first_missing(v, p);
                }
                Ok(None)
            },
        }
    }

    fn find_rival(&self, root: &str, key: &str) -> (r: Option<usize>)
        ensures
            match r {
                Some(i) => first_where(self.model(), is_rival(root@, key@)) == Some(i as int) && i
                    < self.rows.len(),
                None => first_where(self.model(), is_rival(root@, key@)) is None,
            },
    {
        let ghost p = is_rival(root@, key@);
        let mut i: usize = 0;
        while i < self.rows.len()
            invariant
                i <= self.rows.len(),
                p == is_rival(root@, key@),
                forall|j: int| 0 <= j < i ==> !p(#[trigger] self.model()[j]),
            decreases self.rows.len() - i,
        {
            let row = &self.rows[i];
            let own = key_of(row.session_socket.as_str(), row.workspace_id.as_str());
            if same_text(row.canonical_root.as_str(), root) && row.desired == DesiredActivation::On
                && !same_text(own.as_str(), key) {
                proof {
                    first_found(self.model(), p, i as int);
                }
                return Some(i);
            }
            i += 1;
        }
        proof {
            first_missing(self.model(), p);
        }
        None
    }

    fn holds_key(&self, key: &str) -> (r: bool)
        ensures
            r == (first_where(self.model(), has_key(key@)) is Some),
    {
        let ghost p = has_key(key@);
        let mut i: usize = 0;
        while i < self.rows.len()
            invariant
                i <= self.rows.len(),
                p == has_key(key@),
                forall|j: int| 0 <= j < i ==> !p(#[trigger] self.model()[j]),
            decreases self.rows.len() - i,
        {
            let row = &self.rows[i];
            let own = key_of(row.session_socket.as_str(), row.workspace_id.as_str());
            if same_text(own.as_str(), key) {
                proof {
                    first_found(self.model(), p, i as int);
                }
                return true;
            }
            i += 1;
        }
        proof {
            first_missing(self.model(), p);
        }
        false
    }

    fn find_place(&self, id: &ResolvedIdentity) -> (r: usize)
        ensures
            r == place(self.model(), id@),
            r <= self.rows.len(),
    {
        let ghost p = is_after(id.session_socket@, id.workspace_id@);
        let mut i: usize = 0;
        while i < self.rows.len()
            invariant
                i <= self.rows.len(),
                p == is_after(id.session_socket@, id.workspace_id@),
                forall|j: int| 0 <= j < i ==> !p(#[trigger] self.model()[j]),
            decreases self.rows.len() - i,
        {
            if is_ordered(
                id.session_socket.as_str(),
                id.workspace_id.as_str(),
                self.rows[i].session_socket.as_str(),
                self.rows[i].workspace_id.as_str(),
            ) {
                proof {
                    first_found(self.model(), p, i as int);
                }
                return i;
            }
            i += 1;
        }
        proof {
            first_missing(self.model(), p);
        }
        i
    }

    fn refuse(
        &self,
        id: &ResolvedIdentity,
        selection: &Option<WorkspaceSelection>,
        safe: Result<(), ActivationError>,
        desired: DesiredActivation,
        Ghost(current): Ghost<ActivationView>,
        Ghost(request): Ghost<Request>,
    ) -> (r: Option<ActivationError>)
        requires
            selection_view(*selection) == saved_selection(current, request),
            desired == request.desired,
        ensures
            match (r, activation_refusal(self.model(), id@, current, safety(safe), request)) {
                (None, None) => true,
                (Some(e), Some(f)) => e@ == f,
                _ => false,
            },
    {
        if desired == DesiredActivation::On {
            match selection {
                None => Some(ActivationError::SelectionRequired),
                Some(s) => {
                    if let Err(e) = validate_selection(s) {
                        return Some(e);
                    }
                    match self.find_rival(id.canonical_root.as_str(), id.identity_key.as_str()) {
                        None => None,
                        Some(i) => Some(
                            ActivationError::RepositoryAlreadyActive {
                                root: id.canonical_root.as_str().to_owned(),
                                workspace_id: self.rows[i].workspace_id.as_str().to_owned(),
                            },
                        ),
                    }
                },
            }
        } else {
            match safe {
                Ok(_) => None,
                Err(e) => Some(e),
            }
        }
    }

    fn write(&mut self, id: &ResolvedIdentity, row: ActivationRow) -> (r: Result<
        (),
        ActivationError,
    >)
        ensures
            final(self).base() == old(self).base(),
            match (r, write(old(self).model(), id@, row@)) {
                (Ok(_), Ok(next)) => final(self).model() == next,
                (Err(e), Err(f)) => e@ == f && *final(self) == *old(self),
                _ => false,
            },
    {
        match self.find(id.session_socket.as_str(), id.workspace_id.as_str()) {
            Some(i) => {
                self.rows.set(i, row);
                assert(self.model() =~= old(self).model().update(i as int, row@));
                Ok(())
            },
            None => {
                if self.holds_key(id.identity_key.as_str()) {
                    return Err(
                        ActivationError::Storage(
                            "UNIQUE constraint failed: workspace_activations.identity_key"
                                .to_owned(),
                        ),
                    );
                }
                let at = self.find_place(id);
                self.rows.insert(at, row);
                assert(self.model() =~= old(self).model().insert(at as int, row@));
                Ok(())
            },
        }
    }

    /// Applies an idempotent desired state using optional revision protection. `safe` says
    /// whether the workspace can be disabled without losing work.
    pub fn set(
        &mut self,
        identity: &WorkspaceIdentity,
        root: CanonicalRoot,
        request: SetActivationRequest,
        safe: Result<(), ActivationError>,
    ) -> (r: Result<WorkspaceActivationView, ActivationError>)
        requires
            old(self).wf(),
        ensures
            final(self).wf(),
            final(self).base() == old(self).base(),
            match resolve(old(self).base(), *identity, root) {
                Err(f) => r is Err && r->Err_0@ == f && *final(self) == *old(self),
                Ok(id) => match set_activation(old(self).model(), id, safety(safe), request@) {
                    Err(f) => r is Err && r->Err_0@ == f && *final(self) == *old(self),
                    Ok(next) => r is Ok && final(self).model() == next && lookup(next, id) == Ok::<
                        ActivationView,
                        ActivationFault,
                    >(r->Ok_0@),
                },
            },
    {
        let id = match resolve_identity(self.plugin_state_dir.as_str(), identity, root) {
            Err(e) => {
                return Err(e);
            },
            Ok(id) => id,
        };
        let current = match self.view_of(&id) {
            Err(e) => {
                return Err(e);
            },
            Ok(current) => current,
        };
        if let Some(expected) = request.expected_revision {
            if expected != current.revision {
                return Err(
                    ActivationError::RevisionConflict { expected, actual: current.revision },
                );
            }
        }
        if current.desired == request.desired && (request.selection.is_none() || same_saved(
            &request.selection,
            &current.selection,
        )) {
            return Ok(current);
        }
        let ghost seen = current@;
        let ghost asked = request@;
        proof {
            first_says(self.model(), is_workspace(id@.session_socket, id@.workspace_id));
        }
        let revision = current.revision;
        let state_dir = current.state_dir;
        let selection = match request.selection {
            Some(s) => Some(s),
            None => current.selection,
        };
        if let Some(e) = self.refuse(
            &id,
            &selection,
            safe,
            request.desired,
            Ghost(seen),
            Ghost(asked),
        ) {
            return Err(e);
        }
        if revision >= LAST_REVISION {
            return Err(
                ActivationError::Storage(
                    "out of range integral type conversion attempted".to_owned(),
                ),
            );
        }
        let row = ActivationRow {
            session_socket: id.session_socket.as_str().to_owned(),
            workspace_id: id.workspace_id.as_str().to_owned(),
            canonical_root: id.canonical_root.as_str().to_owned(),
            revision: revision + 1,
            desired: request.desired,
            runtime: if request.desired == DesiredActivation::On {
                ActivationRuntime::ReactivationRequired
            } else {
                ActivationRuntime::Offline
            },
            selection,
            diagnostic: None,
            state_dir,
        };
        let shown = row.show();
        assert(row@ == written(id@, seen, asked));
        proof {
            written_is_seen(self.model(), id@, row@);
            set_keeps_table(self.model(), id@, safety(safe), asked);
        }
        match self.write(&id, row) {
            Err(e) => Err(e),
            Ok(_) => Ok(shown),
        }
    }

    fn note_runtime(
        &mut self,
        current: &WorkspaceActivationView,
        runtime: ActivationRuntime,
        diagnostic: &Option<String>,
    ) -> (r: bool)
        requires
            current.revision < LAST_REVISION,
        ensures
            final(self).base() == old(self).base(),
            final(self).model() == with_runtime(
                old(self).model(),
                current@,
                runtime,
                optional_text(*diagnostic),
            ),
            r == (count_where(
                old(self).model(),
                is_revision_of(current@.state_dir, current@.revision),
            ) == 1),
    {
        let ghost v = self.model();
        let ghost p = is_revision_of(current@.state_dir, current@.revision);
        let ghost next = with_runtime(v, current@, runtime, optional_text(*diagnostic));
        let mut once = false;
        let mut many = false;
        let mut i: usize = 0;
        assert(v.take(0).len() == 0);
        while i < self.rows.len()
            invariant
                i <= self.rows.len(),
                self.rows.len() == v.len(),
                current.revision < LAST_REVISION,
                self.base() == old(self).base(),
                p == is_revision_of(current@.state_dir, current@.revision),
                next == with_runtime(v, current@, runtime, optional_text(*diagnostic)),
                forall|j: int| 0 <= j < i ==> #[trigger] self.model()[j] == next[j],
                forall|j: int| i <= j < v.len() ==> #[trigger] self.model()[j] == v[j],
                many == (count_where(v.take(i as int), p) > 1),
                once == (count_where(v.take(i as int), p) >= 1),
            decreases self.rows.len() - i,
        {
            proof {
                count_step(v, p, i as int);
            }
            assert(self.model()[i as int] == v[i as int]);
            let ghost before = self.model();
            if same_text(self.rows[i].state_dir.as_str(), current.state_dir.as_str())
                && self.rows[i].revision == current.revision {
                let row = &self.rows[i];
                let changed = ActivationRow {
                    session_socket: row.session_socket.as_str().to_owned(),
                    workspace_id: row.workspace_id.as_str().to_owned(),
                    canonical_root: row.canonical_root.as_str().to_owned(),
                    revision: row.revision + 1,
                    desired: row.desired,
                    runtime,
                    selection: copy_saved(&row.selection),
                    diagnostic: copy_text(diagnostic),
                    state_dir: row.state_dir.as_str().to_owned(),
                };
                self.rows.set(i, changed);
                assert(self.model() =~= before.update(i as int, changed@));
                if once {
                    many = true;
                }
                once = true;
            }
            i += 1;
        }
        assert(v.take(i as int) =~= v);
        assert(self.model() =~= next);
        once && !many
    }

    /// Records the outcome of live activation side effects with revision protection.
    pub fn record_runtime(
        &mut self,
        identity: &WorkspaceIdentity,
        root: CanonicalRoot,
        runtime: ActivationRuntime,
        diagnostic: Option<String>,
    ) -> (r: Result<WorkspaceActivationView, ActivationError>)
        requires
            old(self).wf(),
        ensures
            final(self).wf(),
            final(self).base() == old(self).base(),
            match resolve(old(self).base(), *identity, root) {
                Err(f) => r is Err && r->Err_0@ == f && *final(self) == *old(self),
                Ok(id) => {
                    let (next, seen) = record(
                        old(self).model(),
                        id,
                        runtime,
                        optional_text(diagnostic),
                    );
                    &&& final(self).model() == next
                    &&& match (r, seen) {
                        (Ok(found), Ok(view)) => found@ == view,
                        (Err(e), Err(f)) => e@ == f,
                        _ => false,
                    }
                },
            },
    {
        let id = match resolve_identity(self.plugin_state_dir.as_str(), identity, root) {
            Err(e) => {
                return Err(e);
            },
            Ok(id) => id,
        };
        let current = match self.view_of(&id) {
            Err(e) => {
                return Err(e);
            },
            Ok(current) => current,
        };
        if let Some(text) = &diagnostic {
            if byte_len(text.as_str()) > MAX_DIAGNOSTIC_BYTES {
                return Err(
                    ActivationError::Storage("activation diagnostic exceeds 16 KiB".to_owned()),
                );
            }
        }
        if current.revision >= LAST_REVISION {
            return Err(
                ActivationError::Storage(
                    "out of range integral type conversion attempted".to_owned(),
                ),
            );
        }
        proof {
            recording_keeps_table(self.model(), id@, runtime, optional_text(diagnostic));
        }
        let once = self.note_runtime(&current, runtime, &diagnostic);
        match self.view_of(&id) {
            Err(e) => Err(e),
            Ok(seen) => if once {
                Ok(seen)
            } else {
                Err(
                    ActivationError::RevisionConflict {
                        expected: current.revision,
                        actual: seen.revision,
                    },
                )
            },
        }
    }
}

/// What is said of the safety of a shutdown.
pub open spec fn safety(safe: Result<(), ActivationError>) -> Result<(), ActivationFault> {
    match safe {
        Ok(_) => Ok(()),
        Err(e) => Err(e@),
    }
}

// ---------------------------------------------------------------------------------------------
// Laws
// ---------------------------------------------------------------------------------------------

/// A row that was written is the one that is seen.
pub proof fn written_is_seen(rows: Seq<Activation>, id: Resolved, row: Activation)
    requires
        row.session_socket == id.session_socket,
        row.workspace_id == id.workspace_id,
        row.canonical_root == id.canonical_root,
    ensures
        match write(rows, id, row) {
            Ok(next) => lookup(next, id) == Ok::<ActivationView, ActivationFault>(row.shown()),
            Err(_) => true,
        },
{
    let p = is_workspace(id.session_socket, id.workspace_id);
    first_says(rows, p);
    if let Ok(next) = write(rows, id, row) {
        match first_where(rows, p) {
            Some(i) => {
                assert forall|j: int| 0 <= j < i implies !p(#[trigger] next[j]) by {
                    assert(next[j] == rows[j]);
                }
                first_found(next, p, i);
            },
            None => {
                let at = place(rows, id);
                first_says(rows, is_after(id.session_socket, id.workspace_id));
                assert(next[at] == row);
                assert forall|j: int| 0 <= j < at implies !p(#[trigger] next[j]) by {
                    assert(next[j] == rows[j]);
                }
                first_found(next, p, at);
            },
        }
    }
}

/// Setting a desired state keeps the table a table: in particular at most one workspace is
/// enabled for each repository root.
pub proof fn set_keeps_table(
    rows: Seq<Activation>,
    id: Resolved,
    safe: Result<(), ActivationFault>,
    request: Request,
)
    requires
        table(rows),
        id.identity_key == identity_key(id.session_socket, id.workspace_id),
    ensures
        match set_activation(rows, id, safe, request) {
            Ok(next) => table(next),
            Err(_) => true,
        },
{
    let p = is_workspace(id.session_socket, id.workspace_id);
    first_says(rows, p);
    first_says(rows, is_rival(id.canonical_root, id.identity_key));
    first_says(rows, has_key(id.identity_key));
    first_says(rows, is_after(id.session_socket, id.workspace_id));
    if let Ok(next) = set_activation(rows, id, safe, request) {
        if next != rows {
            let current = lookup(rows, id)->Ok_0;
            let row = written(id, current, request);
            assert(row.key() == id.identity_key);
            match first_where(rows, p) {
                Some(i) => {
                    assert(next == rows.update(i, row));
                    assert forall|x: int, y: int| 0 <= x < y < next.len() implies compatible(
                        #[trigger] next[x],
                        #[trigger] next[y],
                    ) by {
                        assert(compatible(rows[x], rows[y]));
                        let rival = is_rival(id.canonical_root, id.identity_key);
                        if x == i {
                            assert(next[y] == rows[y]);
                            if row.desired == DesiredActivation::On {
                                assert(!rival(rows[y]));
                            }
                        } else if y == i {
                            assert(next[x] == rows[x]);
                            if row.desired == DesiredActivation::On {
                                assert(!rival(rows[x]));
                            }
                        }
                    }
                },
                None => {
                    let at = place(rows, id);
                    let after = is_after(id.session_socket, id.workspace_id);
                    assert(next == rows.insert(at, row));
                    assert forall|x: int, y: int| 0 <= x < y < next.len() implies compatible(
                        #[trigger] next[x],
                        #[trigger] next[y],
                    ) by {
                        let x0 = if x > at {
                            x - 1
                        } else {
                            x
                        };
                        let y0 = if y > at {
                            y - 1
                        } else {
                            y
                        };
                        let rival = is_rival(id.canonical_root, id.identity_key);
                        let same = has_key(id.identity_key);
                        if x != at && y != at {
                            assert(next[x] == rows[x0] && next[y] == rows[y0]);
                            assert(compatible(rows[x0], rows[y0]));
                        } else if x == at {
                            assert(next[y] == rows[y0]);
                            assert(!same(rows[y0]));
                            if row.desired == DesiredActivation::On {
                                assert(!rival(rows[y0]));
                            }
                            assert(after(rows[at]));
                            if y0 > at {
                                assert(compatible(rows[at], rows[y0]));
                                ordered_passes_on(row, rows[at], rows[y0]);
                            }
                        } else {
                            assert(next[x] == rows[x]);
                            assert(!same(rows[x]));
                            if row.desired == DesiredActivation::On {
                                assert(!rival(rows[x]));
                            }
                            assert(!after(rows[x]));
                            assert(!p(rows[x]));
                            one_precedes(rows[x].session_socket, id.session_socket);
                            one_precedes(rows[x].workspace_id, id.workspace_id);
                        }
                    }
                },
            }
        }
    }
}

proof fn ordered_passes_on(a: Activation, b: Activation, c: Activation)
    requires
        row_ordered(a, b),
        row_ordered(b, c),
    ensures
        row_ordered(a, c),
{
    if precedes(a.session_socket, b.session_socket) && precedes(
        b.session_socket,
        c.session_socket,
    ) {
        precedes_passes_on(a.session_socket, b.session_socket, c.session_socket);
    }
    if precedes(a.workspace_id, b.workspace_id) && precedes(b.workspace_id, c.workspace_id) {
        precedes_passes_on(a.workspace_id, b.workspace_id, c.workspace_id);
    }
}

/// Recording a runtime outcome keeps the table a table, and a workspace that could be looked up
/// can be looked up afterwards.
pub proof fn recording_keeps_table(
    rows: Seq<Activation>,
    id: Resolved,
    runtime: ActivationRuntime,
    diagnostic: Option<Seq<char>>,
)
    requires
        table(rows),
    ensures
        table(record(rows, id, runtime, diagnostic).0),
        lookup(rows, id) is Ok ==> lookup(record(rows, id, runtime, diagnostic).0, id) is Ok,
{
    let next = record(rows, id, runtime, diagnostic).0;
    let p = is_workspace(id.session_socket, id.workspace_id);
    first_says(rows, p);
    assert forall|x: int, y: int| 0 <= x < y < next.len() implies compatible(
        #[trigger] next[x],
        #[trigger] next[y],
    ) by {
        assert(compatible(rows[x], rows[y]));
    }
    assert forall|x: int| 0 <= x < next.len() implies 1 <= (#[trigger] next[x]).revision
        <= LAST_REVISION by {
        assert(1 <= rows[x].revision <= LAST_REVISION);
    }
    match first_where(rows, p) {
        Some(i) => {
            assert forall|j: int| 0 <= j < i implies !p(#[trigger] next[j]) by {
                assert(!p(rows[j]));
            }
            first_found(next, p, i);
        },
        None => {
            assert forall|j: int| 0 <= j < next.len() implies !p(#[trigger] next[j]) by {
                assert(!p(rows[j]));
            }
            first_missing(next, p);
        },
    }
}

/// Setting a desired state again changes nothing.
pub proof fn setting_is_idempotent(
    rows: Seq<Activation>,
    id: Resolved,
    safe: Result<(), ActivationFault>,
    safe_later: Result<(), ActivationFault>,
    request: Request,
)
    requires
        request.expected_revision is None,
    ensures
        match set_activation(rows, id, safe, request) {
            Ok(next) => set_activation(next, id, safe_later, request) == Ok::<
                Seq<Activation>,
                ActivationFault,
            >(next),
            Err(_) => true,
        },
{
    if let Ok(next) = set_activation(rows, id, safe, request) {
        let current = lookup(rows, id)->Ok_0;
        if !already_set(current, request) {
            written_is_seen(rows, id, written(id, current, request));
        }
    }
}

/// Of two requests that were based on one revision, the second is refused once the first has
/// changed the workspace.
pub proof fn one_revision_is_replaced_once(
    rows: Seq<Activation>,
    id: Resolved,
    safe: Result<(), ActivationFault>,
    first: Request,
    second: Request,
    revision: u64,
)
    requires
        lookup(rows, id) is Ok,
        lookup(rows, id)->Ok_0.revision == revision,
        second.expected_revision == Some(revision),
    ensures
        match set_activation(rows, id, safe, first) {
            Ok(next) => next == rows || set_activation(next, id, safe, second) == Err::<
                Seq<Activation>,
                ActivationFault,
            >(
                ActivationFault::RevisionConflict {
                    expected: revision,
                    actual: (revision + 1) as u64,
                },
            ),
            Err(_) => true,
        },
{
    if let Ok(next) = set_activation(rows, id, safe, first) {
        if next != rows {
            let current = lookup(rows, id)->Ok_0;
            written_is_seen(rows, id, written(id, current, first));
        }
    }
}

/// A workspace keeps its selection when it is switched off, and can be enabled again without
/// naming one.
pub proof fn selections_survive_switching_off(
    rows: Seq<Activation>,
    id: Resolved,
    safe: Result<(), ActivationFault>,
)
    requires
        lookup(rows, id) is Ok,
    ensures
        match set_activation(
            rows,
            id,
            safe,
            (Request {
                desired: DesiredActivation::Off,
                expected_revision: None,
                selection: None,
            }),
        ) {
            Ok(next) => lookup(next, id) is Ok && lookup(next, id)->Ok_0.selection == lookup(
                rows,
                id,
            )->Ok_0.selection && lookup(next, id)->Ok_0.desired == DesiredActivation::Off,
            Err(_) => true,
        },
{
    let request = Request {
        desired: DesiredActivation::Off,
        expected_revision: None,
        selection: None,
    };
    let current = lookup(rows, id)->Ok_0;
    if !already_set(current, request) {
        written_is_seen(rows, id, written(id, current, request));
    }
}

/// Setting one workspace leaves every other one as it was.
pub proof fn other_workspaces_stay(
    rows: Seq<Activation>,
    id: Resolved,
    safe: Result<(), ActivationFault>,
    request: Request,
    other: Activation,
)
    requires
        rows.contains(other),
        other.session_socket != id.session_socket || other.workspace_id != id.workspace_id,
    ensures
        match set_activation(rows, id, safe, request) {
            Ok(next) => next.contains(other),
            Err(_) => true,
        },
{
    let p = is_workspace(id.session_socket, id.workspace_id);
    first_says(rows, p);
    first_says(rows, is_after(id.session_socket, id.workspace_id));
    let k = choose|k: int| 0 <= k < rows.len() && rows[k] == other;
    if let Ok(next) = set_activation(rows, id, safe, request) {
        if next != rows {
            if first_where(rows, p) is Some {
                assert(next[k] == other);
            } else if k < place(rows, id) {
                assert(next[k] == other);
            } else {
                assert(next[k + 1] == other);
            }
        }
    }
}

} // verus!

//! Creation of Tasks and the memory of keyed requests.
use vstd::prelude::*;

use crate::contract::{
    DeliveryIntent, DependencyCondition, DependencyFailurePolicy, HarnessTier, RepositoryAccess,
    SessionReusePolicy, TaskRole, TaskSchedulingState, TaskState,
};
use crate::error::{refusal, refuse, CoordinatorError, ErrorCategory, Refusal};
use crate::graph::{orderable, validate_acyclic_task_graph};
use crate::identity::{uuid_form, uuid_text, AttachmentId, HarnessSessionId, MessageId, TaskId};
use crate::ledger::dependencies::reevaluate;
use crate::ledger::{find_task, is_harness, is_message, is_session, settles, Ledger, Model};
use crate::rows::{
    AttachedRow, AttachmentOwner, AttachmentRow, DependencyRow, HarnessKey, HarnessRow,
    IdempotencyRow, KeyedOutcome, MessageRow, SchedulingRow, SessionRow, StoredMessageKind,
    TaskRow, TextKey, TransitionReason, TransitionRow, WorktreeKey,
};
use crate::select::{
    first_found, first_missing, first_where, keep_step, keep_where, last_found, last_missing,
    last_where, some_where,
};
use crate::text::{byte_count, byte_len, chars_of, join3, same_text};

verus! {

// ---------------------------------------------------------------------------------------------
// Keyed requests
// ---------------------------------------------------------------------------------------------

/// A request of an actor under a key; `creates_task` tells the two keyed commands apart.
#[derive(Debug, Clone, Copy, PartialEq, Eq, Structural)]
pub struct KeyedRequest {
    pub actor: HarnessKey,
    pub creates_task: bool,
    pub request_key: Option<TextKey>,
    pub payload: TextKey,
}

pub open spec fn is_keyed(
    actor: HarnessKey,
    creates_task: bool,
    request_key: TextKey,
) -> spec_fn(IdempotencyRow) -> bool {
    |k: IdempotencyRow|
        k.actor == actor && k.creates_task == creates_task && k.request_key == request_key
}

/// The remembered outcome of a request: the same key asks for the same payload.
pub open spec fn recall(m: Model, q: KeyedRequest) -> Result<Option<KeyedOutcome>, Refusal> {
    match q.request_key {
        None => Ok(None),
        Some(key) => match first_where(m.keyed, is_keyed(q.actor, q.creates_task, key)) {
            None => Ok(None),
            Some(i) => if m.keyed[i].payload == q.payload {
                Ok(Some(m.keyed[i].outcome))
            } else {
                Err(
                    refusal(
                        ErrorCategory::Conflict,
                        "request_key was already used with a different payload"@,
                    ),
                )
            },
        },
    }
}

/// An outcome remembered for its key.
pub open spec fn remember(m: Model, q: KeyedRequest, outcome: KeyedOutcome) -> Model {
    match q.request_key {
        None => m,
        Some(key) => Model {
            keyed: m.keyed.push(
                IdempotencyRow {
                    actor: q.actor,
                    creates_task: q.creates_task,
                    request_key: key,
                    payload: q.payload,
                    outcome,
                },
            ),
            ..m
        },
    }
}

impl Ledger {
    /// The remembered outcome of a request.
    pub fn find_idempotent_outcome(&self, q: KeyedRequest) -> (r: Result<
        Option<KeyedOutcome>,
        CoordinatorError,
    >)
        ensures
            crate::error::outcome(r) == recall(self@, q),
    {
        match q.request_key {
            None => Ok(None),
            Some(key) => {
                let mut i: usize = 0;
                while i < self.keyed.len()
                    invariant
                        i <= self.keyed.len(),
                        q.request_key == Some(key),
                        forall|j: int|
                            0 <= j < i ==> !is_keyed(q.actor, q.creates_task, key)(
                                #[trigger] self.keyed@[j],
                            ),
                    decreases self.keyed.len() - i,
                {
                    let k = self.keyed[i];
                    if k.actor == q.actor && k.creates_task == q.creates_task && k.request_key
                        == key {
                        proof {
                            first_found(
                                self@.keyed,
                                is_keyed(q.actor, q.creates_task, key),
                                i as int,
                            );
                        }
                        if k.payload == q.payload {
                            return Ok(Some(k.outcome));
                        }
                        return Err(
                            refuse(
                                ErrorCategory::Conflict,
                                "request_key was already used with a different payload",
                            ),
                        );
                    }
                    i += 1;
                }
                proof {
                    first_missing(self@.keyed, is_keyed(q.actor, q.creates_task, key));
                }
                Ok(None)
            },
        }
    }

    /// Remembers an outcome for its key.
    pub fn store_idempotent_outcome(&mut self, q: KeyedRequest, outcome: KeyedOutcome)
        ensures
            final(self)@ == remember(old(self)@, q, outcome),
    {
        if let Some(key) = q.request_key {
            self.keyed.push(
                IdempotencyRow {
                    actor: q.actor,
                    creates_task: q.creates_task,
                    request_key: key,
                    payload: q.payload,
                    outcome,
                },
            );
        }
    }
}

// ---------------------------------------------------------------------------------------------
// Attachments
// ---------------------------------------------------------------------------------------------

/// Attachments that the ledger lacks.
pub open spec fn is_unknown_attachment(m: Model) -> spec_fn(AttachmentId) -> bool {
    |a: AttachmentId| !some_where(m.attachments, is_attachment(a))
}

pub open spec fn is_attachment(id: AttachmentId) -> spec_fn(AttachmentRow) -> bool {
    |a: AttachmentRow| a.id == id
}

/// An indexed Attachment.
pub open spec fn find_attachment(m: Model, id: AttachmentId) -> Option<AttachmentRow> {
    match first_where(m.attachments, is_attachment(id)) {
        Some(i) => Some(m.attachments[i]),
        None => None,
    }
}

pub open spec fn is_attached_to(owner: AttachmentOwner) -> spec_fn(AttachedRow) -> bool {
    |a: AttachedRow| a.owner == owner
}

/// The Attachments that an owner names, in the order of naming.
pub open spec fn attachments_of(m: Model, owner: AttachmentOwner) -> Seq<AttachmentId> {
    keep_where(m.attached, is_attached_to(owner)).map_values(|a: AttachedRow| a.attachment)
}

/// The rows of the Attachments that an owner names.
pub open spec fn attached_rows(owner: AttachmentOwner, ids: Seq<AttachmentId>) -> Seq<AttachedRow> {
    Seq::new(ids.len(), |i: int| AttachedRow { owner, attachment: ids[i] })
}

/// The Attachments that an owner names, recorded.
pub open spec fn attach(m: Model, owner: AttachmentOwner, ids: Seq<AttachmentId>) -> Model {
    Model { attached: m.attached + attached_rows(owner, ids), ..m }
}

/// The refusal of an unknown Attachment.
pub open spec fn attachment_missing(id: AttachmentId) -> Refusal {
    refusal(ErrorCategory::NotFound, "Attachment "@ + uuid_form(id.0) + " does not exist"@)
}

impl Ledger {
    /// The indexed Attachment with an identity.
    pub fn find_attachment(&self, id: AttachmentId) -> (r: Option<AttachmentRow>)
        ensures
            r == find_attachment(self@, id),
            r is Some == some_where(self@.attachments, is_attachment(id)),
    {
        let mut i: usize = 0;
        while i < self.attachments.len()
            invariant
                i <= self.attachments.len(),
                forall|j: int| 0 <= j < i ==> !is_attachment(id)(#[trigger] self.attachments@[j]),
            decreases self.attachments.len() - i,
        {
            if self.attachments[i].id == id {
                proof {
                    first_found(self@.attachments, is_attachment(id), i as int);
                    assert(is_attachment(id)(self@.attachments[i as int]));
                }
                return Some(self.attachments[i]);
            }
            i += 1;
        }
        proof {
            first_missing(self@.attachments, is_attachment(id));
        }
        None
    }

    /// Whether an Attachment is indexed.
    pub fn has_attachment(&self, id: AttachmentId) -> (r: bool)
        ensures
            r == some_where(self@.attachments, is_attachment(id)),
    {
        self.find_attachment(id).is_some()
    }

    /// The Attachments that an owner names.
    pub fn attachments_of(&self, owner: AttachmentOwner) -> (r: Vec<AttachmentId>)
        ensures
            r@ == attachments_of(self@, owner),
    {
        let mut r: Vec<AttachmentId> = Vec::new();
        let mut i: usize = 0;
        assert(r@ =~= keep_where(self@.attached.take(0), is_attached_to(owner)).map_values(
            |a: AttachedRow| a.attachment,
        ));
        while i < self.attached.len()
            invariant
                i <= self.attached.len(),
                r@ == keep_where(
                    self@.attached.take(i as int),
                    is_attached_to(owner),
                ).map_values(|a: AttachedRow| a.attachment),
            decreases self.attached.len() - i,
        {
            proof {
                keep_step(self@.attached, is_attached_to(owner), i as int);
            }
            let ghost kept = keep_where(self@.attached.take(i as int), is_attached_to(owner));
            let a = self.attached[i];
            if a.owner == owner {
                r.push(a.attachment);
                assert(r@ =~= kept.push(a).map_values(|a: AttachedRow| a.attachment));
            }
            i += 1;
        }
        assert(self@.attached.take(i as int) =~= self@.attached);
        r
    }

    /// Records the Attachments that an owner names.
    pub fn attach(&mut self, owner: AttachmentOwner, ids: &Vec<AttachmentId>)
        ensures
            final(self)@ == attach(old(self)@, owner, ids@),
    {
        let mut i: usize = 0;
        assert(self@.attached =~= old(self)@.attached + attached_rows(owner, ids@).take(0));
        while i < ids.len()
            invariant
                i <= ids.len(),
                self@ == (Model {
                    attached: old(self)@.attached + attached_rows(owner, ids@).take(i as int),
                    ..old(self)@
                }),
            decreases ids.len() - i,
        {
            self.attached.push(AttachedRow { owner, attachment: ids[i] });
            i += 1;
            assert(self@.attached =~= old(self)@.attached + attached_rows(owner, ids@).take(
                i as int,
            ));
        }
        assert(self@.attached =~= old(self)@.attached + attached_rows(owner, ids@));
    }

    /// Requires every Attachment to be indexed; the first unknown one is refused.
    pub fn require_attachments(&self, ids: &Vec<AttachmentId>) -> (r: Result<
        (),
        CoordinatorError,
    >)
        ensures
            match first_where(ids@, is_unknown_attachment(self@)) {
                None => r is Ok,
                Some(i) => r is Err && r->Err_0@ == attachment_missing(ids@[i]),
            },
    {
        let mut i: usize = 0;
        while i < ids.len()
            invariant
                i <= ids.len(),
                forall|j: int| 0 <= j < i ==> !is_unknown_attachment(self@)(#[trigger] ids@[j]),
            decreases ids.len() - i,
        {
            if !self.has_attachment(ids[i]) {
                proof {
                    first_found(ids@, is_unknown_attachment(self@), i as int);
                }
                let text = uuid_text(ids[i].0);
                return Err(
                    CoordinatorError::new(
                        ErrorCategory::NotFound,
                        join3("Attachment ", text.as_str(), " does not exist"),
                    ),
                );
            }
            i += 1;
        }
        proof {
            first_missing(ids@, is_unknown_attachment(self@));
        }
        Ok(())
    }
}

/// A media type that can be recorded: 1 to 255 bytes on one line.
pub open spec fn media_type_fits(text: Seq<char>) -> bool {
    1 <= byte_count(text) <= 255 && !text.contains('\r') && !text.contains('\n')
}

/// A file name without directories: 1 to 255 bytes, and no reference to a directory.
pub open spec fn is_basename(text: Seq<char>) -> bool {
    1 <= byte_count(text) <= 255 && !text.contains('/') && text != "."@ && text != ".."@
}

/// Why an Attachment is refused for what it is called.
pub open spec fn naming_refusal(media_type: Seq<char>, original_name: Seq<char>) -> Option<
    Refusal,
> {
    if !media_type_fits(media_type) {
        Some(
            refusal(
                ErrorCategory::InvalidInput,
                "media type must contain 1 to 255 bytes without line breaks"@,
            ),
        )
    } else if !is_basename(original_name) {
        Some(
            refusal(
                ErrorCategory::InvalidInput,
                "original name must be a basename containing 1 to 255 bytes"@,
            ),
        )
    } else {
        None
    }
}

/// An Attachment indexed under its identity; `media_type` and `original_name` are the texts that
/// its row numbers.
pub open spec fn admit_attachment(
    m: Model,
    row: AttachmentRow,
    media_type: Seq<char>,
    original_name: Seq<char>,
) -> Result<Model, Refusal> {
    if naming_refusal(media_type, original_name) is Some {
        Err(naming_refusal(media_type, original_name)->0)
    } else {
        index_attachment(m, row)
    }
}

/// A stored Attachment indexed under its identity.
pub open spec fn index_attachment(m: Model, row: AttachmentRow) -> Result<Model, Refusal> {
    if row.size_bytes > i64::MAX {
        Err(crate::ledger::steps::revision_overflow())
    } else if some_where(m.attachments, is_attachment(row.id)) {
        Err(refusal(ErrorCategory::StorageFailure, "identity is already in use"@))
    } else {
        Ok(Model { attachments: m.attachments.push(row), ..m })
    }
}

fn holds_char(text: &str, c: char) -> (r: bool)
    ensures
        r == text@.contains(c),
{
    let chars = chars_of(text);
    let mut i: usize = 0;
    while i < chars.len()
        invariant
            i <= chars.len(),
            chars@ == text@,
            forall|j: int| 0 <= j < i ==> text@[j] != c,
        decreases chars.len() - i,
    {
        if chars[i] == c {
            assert(text@[i as int] == c);
            return true;
        }
        i += 1;
    }
    false
}

/// Requires a media type and a file name that can be recorded.
pub fn require_attachment_names(media_type: &str, original_name: &str) -> (r: Result<
    (),
    CoordinatorError,
>)
    ensures
        match naming_refusal(media_type@, original_name@) {
            None => r is Ok,
            Some(e) => r is Err && r->Err_0@ == e,
        },
{
    let media_bytes = byte_len(media_type);
    if media_bytes == 0 || media_bytes > 255 || holds_char(media_type, '\r') || holds_char(
        media_type,
        '\n',
    ) {
        return Err(
            refuse(
                ErrorCategory::InvalidInput,
                "media type must contain 1 to 255 bytes without line breaks",
            ),
        );
    }
    let name_bytes = byte_len(original_name);
    if name_bytes == 0 || name_bytes > 255 || holds_char(original_name, '/') || same_text(
        original_name,
        ".",
    ) || same_text(original_name, "..") {
        return Err(
            refuse(
                ErrorCategory::InvalidInput,
                "original name must be a basename containing 1 to 255 bytes",
            ),
        );
    }
    Ok(())
}

impl Ledger {
    /// Indexes an Attachment that was copied into storage.
    pub fn admit_attachment(
        &mut self,
        row: AttachmentRow,
        media_type: &str,
        original_name: &str,
    ) -> (r: Result<(), CoordinatorError>)
        ensures
            settles(
                r,
                old(self)@,
                final(self)@,
                crate::ledger::steps::plain(
                    admit_attachment(old(self)@, row, media_type@, original_name@),
                ),
            ),
    {
        match require_attachment_names(media_type, original_name) {
            Err(e) => {
                return Err(e);
            },
            Ok(_) => {},
        }
        self.index_attachment(row)
    }

    /// Indexes a stored Attachment.
    pub fn index_attachment(&mut self, row: AttachmentRow) -> (r: Result<(), CoordinatorError>)
        ensures
            settles(
                r,
                old(self)@,
                final(self)@,
                crate::ledger::steps::plain(index_attachment(old(self)@, row)),
            ),
    {
        if row.size_bytes > 0x7fff_ffff_ffff_ffff {
            return Err(
                refuse(
                    ErrorCategory::StorageFailure,
                    "out of range integral type conversion attempted",
                ),
            );
        }
        if self.has_attachment(row.id) {
            return Err(refuse(ErrorCategory::StorageFailure, "identity is already in use"));
        }
        self.attachments.push(row);
        Ok(())
    }
}

// ---------------------------------------------------------------------------------------------
// Task creation
// ---------------------------------------------------------------------------------------------

/// A dependency as submitted, with the canonical root that its upstream worktree has now.
#[derive(Debug)]
pub struct DeclaredDependency {
    pub task: TaskId,
    pub condition: DependencyCondition,
    pub policy: DependencyFailurePolicy,
    pub root: Result<WorktreeKey, String>,
}

/// A Task as submitted, under new identities.
#[derive(Debug, Clone, Copy, PartialEq, Eq, Structural)]
pub struct NewTask {
    pub id: TaskId,
    pub message: MessageId,
    pub worker: HarnessKey,
    pub related: Option<TaskId>,
    pub role: TaskRole,
    pub policy: SessionReusePolicy,
    pub preferred_session: Option<HarnessSessionId>,
    pub access: RepositoryAccess,
    pub worktree: WorktreeKey,
    pub canonical_root: WorktreeKey,
    /// The submission as it was made; it is also the body of the root Message.
    pub submission: TextKey,
}

pub open spec fn is_session_of(harness: HarnessKey) -> spec_fn(SessionRow) -> bool {
    |s: SessionRow| s.harness == harness
}

/// Launch profile of the newest Session of a Harness, ended or not.
pub open spec fn latest_profile(m: Model, harness: HarnessKey) -> Option<TextKey> {
    match last_where(m.sessions, is_session_of(harness)) {
        Some(i) => m.sessions[i].profile,
        None => None,
    }
}

/// Why a worker cannot take the Task.
pub open spec fn worker_refusal(m: Model, new: NewTask) -> Option<Refusal> {
    match first_where(m.harnesses, is_harness(new.worker)) {
        None => Some(refusal(ErrorCategory::NotFound, "Worker Harness does not exist"@)),
        Some(i) => if m.harnesses[i].tier != HarnessTier::Worker {
            Some(refusal(ErrorCategory::InvalidInput, "Task target is not a Worker"@))
        } else if m.harnesses[i].worktree != new.canonical_root {
            Some(
                refusal(
                    ErrorCategory::InvalidInput,
                    "Task repository does not match Worker registration"@,
                ),
            )
        } else {
            None
        },
    }
}

/// Why the preferred Session is refused.
pub open spec fn preference_refusal(m: Model, new: NewTask) -> Option<Refusal> {
    match new.preferred_session {
        None => None,
        Some(id) => {
            let owner = match first_where(m.sessions, is_session(id)) {
                Some(i) => Some(m.sessions[i].harness),
                None => None,
            };
            if owner == Some(new.worker) {
                None
            } else {
                Some(
                    refusal(
                        ErrorCategory::InvalidInput,
                        "preferred Session does not belong to the selected Worker"@,
                    ),
                )
            }
        },
    }
}

/// Why a declared dependency is refused.
pub open spec fn dependency_refusal(
    m: Model,
    root: WorktreeKey,
    d: DeclaredDependency,
) -> Option<Refusal> {
    if find_task(m, d.task) is None {
        Some(
            refusal(
                ErrorCategory::NotFound,
                "dependency Task "@ + uuid_form(d.task.0) + " does not exist"@,
            ),
        )
    } else {
        match d.root {
            Err(text) => Some(refusal(ErrorCategory::InvalidInput, text@)),
            Ok(key) => if key != root {
                Some(
                    refusal(
                        ErrorCategory::InvalidInput,
                        "dependency Task belongs to a different canonical worktree"@,
                    ),
                )
            } else {
                None
            },
        }
    }
}

/// Declared dependencies that are refused.
pub open spec fn is_refused_dependency(
    m: Model,
    root: WorktreeKey,
) -> spec_fn(DeclaredDependency) -> bool {
    |d: DeclaredDependency| dependency_refusal(m, root, d) is Some
}

/// The first reason against a new Task, if there is any.
pub open spec fn creation_refusal(
    m: Model,
    new: NewTask,
    depends_on: Seq<DeclaredDependency>,
    attachments: Seq<AttachmentId>,
) -> Option<Refusal> {
    if worker_refusal(m, new) is Some {
        worker_refusal(m, new)
    } else if preference_refusal(m, new) is Some {
        preference_refusal(m, new)
    } else {
        match first_where(attachments, is_unknown_attachment(m)) {
            Some(i) => Some(attachment_missing(attachments[i])),
            None => match first_where(depends_on, is_refused_dependency(m, new.canonical_root)) {
                Some(k) => dependency_refusal(m, new.canonical_root, depends_on[k]),
                None => if find_task(m, new.id) is Some || first_where(
                    m.messages,
                    is_message(new.message),
                ) is Some {
                    Some(refusal(ErrorCategory::StorageFailure, "identity is already in use"@))
                } else {
                    None
                },
            },
        }
    }
}

/// The edge of a declared dependency.
pub open spec fn edge(id: TaskId, d: DeclaredDependency) -> DependencyRow {
    DependencyRow {
        task: id,
        upstream: d.task,
        condition: d.condition,
        policy: d.policy,
        satisfied: None,
        snapshot: None,
        bound: false,
    }
}

pub open spec fn edges_of(id: TaskId, depends_on: Seq<DeclaredDependency>) -> Seq<DependencyRow> {
    Seq::new(depends_on.len(), |k: int| edge(id, depends_on[k]))
}

/// Identities of the Tasks.
pub open spec fn task_ids(tasks: Seq<TaskRow>) -> Seq<TaskId> {
    Seq::new(tasks.len(), |i: int| tasks[i].id)
}

/// A dependency graph without cycles.
pub open spec fn acyclic(m: Model) -> bool {
    orderable(task_ids(m.tasks), m.dependencies)
}

/// The new rows: a queued Task, ready when it depends on nothing, and its edges.
pub open spec fn placed(m: Model, new: NewTask, depends_on: Seq<DeclaredDependency>) -> Model {
    let scheduling = if depends_on.len() == 0 {
        TaskSchedulingState::Ready
    } else {
        TaskSchedulingState::Blocked
    };
    let profile = latest_profile(m, new.worker);
    let worker = first_where(m.harnesses, is_harness(new.worker));
    Model {
        tasks: m.tasks.push(
            TaskRow {
                id: new.id,
                worker: new.worker,
                related: new.related,
                state: TaskState::Queued,
                scheduling,
                role: new.role,
                policy: new.policy,
                preferred_session: new.preferred_session,
                access: new.access,
                worktree: new.worktree,
                revision: 1,
                approved_revision: None,
                approval: None,
                active_session: None,
                expected_profile: profile,
                expected_model: m.harnesses[worker->0].model,
                expected_tool_policy: profile,
                submission: new.submission,
            },
        ),
        scheduling: m.scheduling.push(
            SchedulingRow {
                task: new.id,
                from: None,
                to: scheduling,
                reason: TransitionReason::Plain,
            },
        ),
        dependencies: m.dependencies + edges_of(new.id, depends_on),
        ..m
    }
}

/// The root Message of a Task and the first log row.
pub open spec fn announced(m: Model, actor: HarnessKey, new: NewTask) -> Model {
    Model {
        transitions: m.transitions.push(
            TransitionRow {
                task: new.id,
                from: None,
                to: TaskState::Queued,
                reason: TransitionReason::Plain,
            },
        ),
        messages: m.messages.push(
            MessageRow {
                id: new.message,
                task: Some(new.id),
                sender: actor,
                recipient: new.worker,
                kind: StoredMessageKind::Task,
                reply_to: None,
                intent: DeliveryIntent::FollowUp,
                body: new.submission,
            },
        ),
        ..m
    }
}

/// Creation of a Task: a keyed request that was answered before gets the same answer; otherwise
/// the Task, its edges, its Attachments and its root Message are recorded and its dependencies
/// evaluated.
pub open spec fn create_task(
    m: Model,
    q: KeyedRequest,
    new: NewTask,
    depends_on: Seq<DeclaredDependency>,
    attachments: Seq<AttachmentId>,
) -> Result<(Model, KeyedOutcome), Refusal> {
    match recall(m, q) {
        Err(e) => Err(e),
        Ok(Some(outcome)) => Ok((m, outcome)),
        Ok(None) => match creation_refusal(m, new, depends_on, attachments) {
            Some(e) => Err(e),
            None => {
                let rows = placed(m, new, depends_on);
                let outcome = KeyedOutcome::TaskCreated { task: new.id, message: new.message };
                if !acyclic(rows) {
                    Err(
                        refusal(
                            ErrorCategory::InvalidInput,
                            "Task dependencies contain a cycle"@,
                        ),
                    )
                } else {
                    Ok(
                        (
                            remember(
                                attach(
                                    announced(reevaluate(rows, new.id), q.actor, new),
                                    AttachmentOwner::Task { task: new.id },
                                    attachments,
                                ),
                                q,
                                outcome,
                            ),
                            outcome,
                        ),
                    )
                }
            },
        },
    }
}

impl Ledger {
    fn session_owner(&self, id: HarnessSessionId) -> (r: Option<HarnessKey>)
        ensures
            r == (match first_where(self@.sessions, is_session(id)) {
                Some(i) => Some(self@.sessions[i].harness),
                None => None,
            }),
    {
        let mut i: usize = 0;
        while i < self.sessions.len()
            invariant
                i <= self.sessions.len(),
                forall|j: int| 0 <= j < i ==> !is_session(id)(#[trigger] self.sessions@[j]),
            decreases self.sessions.len() - i,
        {
            if self.sessions[i].id == id {
                proof {
                    first_found(self@.sessions, is_session(id), i as int);
                }
                return Some(self.sessions[i].harness);
            }
            i += 1;
        }
        proof {
            first_missing(self@.sessions, is_session(id));
        }
        None
    }

    fn latest_profile(&self, harness: HarnessKey) -> (r: Option<TextKey>)
        ensures
            r == latest_profile(self@, harness),
    {
        let mut i: usize = self.sessions.len();
        while i > 0
            invariant
                i <= self.sessions.len(),
                forall|j: int|
                    i <= j < self.sessions.len() ==> !is_session_of(harness)(
                        #[trigger] self.sessions@[j],
                    ),
            decreases i,
        {
            i -= 1;
            if self.sessions[i].harness == harness {
                proof {
                    last_found(self@.sessions, is_session_of(harness), i as int);
                }
                return self.sessions[i].profile;
            }
        }
        proof {
            last_missing(self@.sessions, is_session_of(harness));
        }
        None
    }

    fn dependency_refusal(&self, root: WorktreeKey, d: &DeclaredDependency) -> (r: Option<
        CoordinatorError,
    >)
        ensures
            match r {
                Some(e) => dependency_refusal(self@, root, *d) == Some(e@),
                None => dependency_refusal(self@, root, *d) is None,
            },
    {
        if self.task(d.task).is_none() {
            let text = uuid_text(d.task.0);
            return Some(
                CoordinatorError::new(
                    ErrorCategory::NotFound,
                    join3("dependency Task ", text.as_str(), " does not exist"),
                ),
            );
        }
        match &d.root {
            Err(text) => Some(refuse(ErrorCategory::InvalidInput, text.as_str())),
            Ok(key) => if *key != root {
                Some(
                    refuse(
                        ErrorCategory::InvalidInput,
                        "dependency Task belongs to a different canonical worktree",
                    ),
                )
            } else {
                None
            },
        }
    }

    fn require_creatable(
        &self,
        new: NewTask,
        depends_on: &Vec<DeclaredDependency>,
        attachments: &Vec<AttachmentId>,
    ) -> (r: Result<HarnessRow, CoordinatorError>)
        ensures
            match creation_refusal(self@, new, depends_on@, attachments@) {
                None => r is Ok && first_where(self@.harnesses, is_harness(new.worker)) is Some
                    && r->Ok_0 == self@.harnesses[first_where(
                    self@.harnesses,
                    is_harness(new.worker),
                )->0],
                Some(e) => r is Err && r->Err_0@ == e,
            },
    {
        let worker = match self.harness(new.worker) {
            None => {
                return Err(refuse(ErrorCategory::NotFound, "Worker Harness does not exist"));
            },
            Some(worker) => worker,
        };
        if worker.tier != HarnessTier::Worker {
            return Err(refuse(ErrorCategory::InvalidInput, "Task target is not a Worker"));
        }
        if worker.worktree != new.canonical_root {
            return Err(
                refuse(
                    ErrorCategory::InvalidInput,
                    "Task repository does not match Worker registration",
                ),
            );
        }
        if let Some(id) = new.preferred_session {
            let belongs = match self.session_owner(id) {
                Some(owner) => owner == new.worker,
                None => false,
            };
            if !belongs {
                return Err(
                    refuse(
                        ErrorCategory::InvalidInput,
                        "preferred Session does not belong to the selected Worker",
                    ),
                );
            }
        }
        match self.require_attachments(attachments) {
            Err(e) => {
                return Err(e);
            },
            Ok(_) => {},
        }
        let mut k: usize = 0;
        while k < depends_on.len()
            invariant
                k <= depends_on.len(),
                worker_refusal(self@, new) is None,
                preference_refusal(self@, new) is None,
                first_where(attachments@, is_unknown_attachment(self@)) is None,
                forall|j: int|
                    0 <= j < k ==> !is_refused_dependency(self@, new.canonical_root)(
                        #[trigger] depends_on@[j],
                    ),
            decreases depends_on.len() - k,
        {
            if let Some(e) = self.dependency_refusal(new.canonical_root, &depends_on[k]) {
                proof {
                    first_found(
                        depends_on@,
                        is_refused_dependency(self@, new.canonical_root),
                        k as int,
                    );
                }
                return Err(e);
            }
            k += 1;
        }
        proof {
            first_missing(depends_on@, is_refused_dependency(self@, new.canonical_root));
        }
        if self.task(new.id).is_some() || self.message_position(new.message).is_some() {
            return Err(refuse(ErrorCategory::StorageFailure, "identity is already in use"));
        }
        Ok(worker)
    }

    /// Creates a Task with its edges and its root Message.
    pub fn create_task(
        &mut self,
        q: KeyedRequest,
        new: NewTask,
        depends_on: &Vec<DeclaredDependency>,
        attachments: &Vec<AttachmentId>,
    ) -> (r: Result<KeyedOutcome, CoordinatorError>)
        ensures
            settles(
                r,
                old(self)@,
                final(self)@,
                create_task(old(self)@, q, new, depends_on@, attachments@),
            ),
    {
        match self.find_idempotent_outcome(q) {
            Err(e) => {
                return Err(e);
            },
            Ok(Some(outcome)) => {
                return Ok(outcome);
            },
            Ok(None) => {},
        }
        let worker = match self.require_creatable(new, depends_on, attachments) {
            Err(e) => {
                return Err(e);
            },
            Ok(worker) => worker,
        };
        let mut edges: Vec<DependencyRow> = Vec::new();
        let mut nodes: Vec<TaskId> = Vec::new();
        let mut i: usize = 0;
        while i < self.dependencies.len()
            invariant
                i <= self.dependencies.len(),
                edges@ == self@.dependencies.take(i as int),
            decreases self.dependencies.len() - i,
        {
            edges.push(self.dependencies[i]);
            i += 1;
        }
        let mut k: usize = 0;
        assert(edges@ =~= self@.dependencies + edges_of(new.id, depends_on@).take(0));
        while k < depends_on.len()
            invariant
                k <= depends_on.len(),
                edges@ == self@.dependencies + edges_of(new.id, depends_on@).take(k as int),
            decreases depends_on.len() - k,
        {
            let d = &depends_on[k];
            edges.push(
                DependencyRow {
                    task: new.id,
                    upstream: d.task,
                    condition: d.condition,
                    policy: d.policy,
                    satisfied: None,
                    snapshot: None,
                    bound: false,
                },
            );
            k += 1;
            assert(edges@ =~= self@.dependencies + edges_of(new.id, depends_on@).take(k as int));
        }
        assert(edges@ =~= self@.dependencies + edges_of(new.id, depends_on@));
        let mut t: usize = 0;
        while t < self.tasks.len()
            invariant
                t <= self.tasks.len(),
                nodes@ == task_ids(self@.tasks).take(t as int),
            decreases self.tasks.len() - t,
        {
            nodes.push(self.tasks[t].id);
            t += 1;
        }
        nodes.push(new.id);
        let ghost rows = placed(self@, new, depends_on@);
        assert(nodes@ =~= task_ids(rows.tasks));
        match validate_acyclic_task_graph(&nodes, &edges) {
            Err(e) => {
                return Err(e);
            },
            Ok(_) => {},
        }
        let scheduling = if depends_on.len() == 0 {
            TaskSchedulingState::Ready
        } else {
            TaskSchedulingState::Blocked
        };
        let profile = self.latest_profile(new.worker);
        self.tasks.push(
            TaskRow {
                id: new.id,
                worker: new.worker,
                related: new.related,
                state: TaskState::Queued,
                scheduling,
                role: new.role,
                policy: new.policy,
                preferred_session: new.preferred_session,
                access: new.access,
                worktree: new.worktree,
                revision: 1,
                approved_revision: None,
                approval: None,
                active_session: None,
                expected_profile: profile,
                expected_model: worker.model,
                expected_tool_policy: profile,
                submission: new.submission,
            },
        );
        self.scheduling.push(
            SchedulingRow {
                task: new.id,
                from: None,
                to: scheduling,
                reason: TransitionReason::Plain,
            },
        );
        self.dependencies = edges;
        assert(self@ == rows);
        self.reevaluate_new_task_dependencies(new.id);
        self.transitions.push(
            TransitionRow {
                task: new.id,
                from: None,
                to: TaskState::Queued,
                reason: TransitionReason::Plain,
            },
        );
        self.messages.push(
            MessageRow {
                id: new.message,
                task: Some(new.id),
                sender: q.actor,
                recipient: new.worker,
                kind: StoredMessageKind::Task,
                reply_to: None,
                intent: DeliveryIntent::FollowUp,
                body: new.submission,
            },
        );
        self.attach(AttachmentOwner::Task { task: new.id }, attachments);
        let outcome = KeyedOutcome::TaskCreated { task: new.id, message: new.message };
        self.store_idempotent_outcome(q, outcome);
        Ok(outcome)
    }
}

} // verus!

//! Which Tasks, Results and Attachments are taken into the ledger, and what is stored of them.
use vstd::prelude::*;

use crate::contract::{DeliveryIntent, HarnessTier, TaskState};
use crate::error::{ErrorCategory, Refusal};
use crate::identity::AttachmentId;
use crate::ledger::{is_harness, is_message, is_session, is_task, Model};
use crate::ledger::create::{
    acyclic, admit_attachment, create_task, is_attachment, is_keyed, is_refused_dependency,
    is_session_of, is_unknown_attachment, placed, recall, DeclaredDependency, KeyedRequest,
    NewTask,
};
use crate::ledger::dependencies::{is_result, look_at_edges};
use crate::ledger::messages::{complete_task, NewResult};
use crate::ledger::route_laws::is_new;
use crate::ledger::schedule_laws::{places_are_found, stands};
use crate::ledger::session_laws::serves;
use crate::rows::{
    AttachmentRow, AuthenticatedActor, KeyedOutcome, StoredMessageKind, TextKey, WorktreeKey,
};
use crate::select::{first_found, first_missing, first_says, first_where, last_found, some_where};
use crate::text::byte_count;

verus! {

// ---------------------------------------------------------------------------------------------
// Rows
// ---------------------------------------------------------------------------------------------

/// Every Attachment of a list is stored.
pub open spec fn are_stored(m: Model, ids: Seq<AttachmentId>) -> bool {
    forall|k: int|
        0 <= k < ids.len() ==> exists|a: int|
            0 <= a < m.attachments.len() && (#[trigger] m.attachments[a]).id == #[trigger] ids[k]
}

proof fn stored_ones_are_found(m: Model, ids: Seq<AttachmentId>)
    ensures
        are_stored(m, ids) == (first_where(ids, is_unknown_attachment(m)) is None),
{
    let p = is_unknown_attachment(m);
    first_says(ids, p);
    if are_stored(m, ids) {
        assert forall|k: int| 0 <= k < ids.len() implies !p(#[trigger] ids[k]) by {
            let a = choose|a: int|
                0 <= a < m.attachments.len() && (#[trigger] m.attachments[a]).id == ids[k];
            assert(is_attachment(ids[k])(m.attachments[a]));
        }
        first_missing(ids, p);
    }
    if first_where(ids, p) is None {
        assert forall|k: int| 0 <= k < ids.len() implies exists|a: int|
            0 <= a < m.attachments.len() && (#[trigger] m.attachments[a]).id
                == #[trigger] ids[k] by {
            assert(!p(ids[k]));
            let a = choose|a: int|
                0 <= a < m.attachments.len() && is_attachment(ids[k])(#[trigger] m.attachments[a]);
            assert(m.attachments[a].id == ids[k]);
        }
    }
}

/// A dependency is on a Task that exists, in the worktree of the new Task.
pub open spec fn is_sound(m: Model, root: WorktreeKey, d: DeclaredDependency) -> bool {
    d.root is Ok && d.root->Ok_0 == root && exists|t: int|
        0 <= t < m.tasks.len() && (#[trigger] m.tasks[t]).id == d.task
}

proof fn sound_dependencies_are_accepted(m: Model, root: WorktreeKey, d: DeclaredDependency)
    ensures
        is_refused_dependency(m, root)(d) == !is_sound(m, root, d),
{
    first_says(m.tasks, is_task(d.task));
    if exists|t: int| 0 <= t < m.tasks.len() && (#[trigger] m.tasks[t]).id == d.task {
        let t = choose|t: int| 0 <= t < m.tasks.len() && (#[trigger] m.tasks[t]).id == d.task;
        assert(is_task(d.task)(m.tasks[t]));
    }
    if let Some(t) = first_where(m.tasks, is_task(d.task)) {
        assert(m.tasks[t].id == d.task);
    }
}

// ---------------------------------------------------------------------------------------------
// Tasks
// ---------------------------------------------------------------------------------------------

/// What a new Task refers to is in order: its Worker is a registered Worker of that worktree, the
/// Session that it prefers is the Worker's, its Attachments are stored, its dependencies are on
/// Tasks of the same worktree, and its identities are unused.
pub open spec fn is_in_order(
    m: Model,
    new: NewTask,
    depends_on: Seq<DeclaredDependency>,
    attachments: Seq<AttachmentId>,
    h: int,
) -> bool {
    &&& serves(m, new.worker, h)
    &&& m.harnesses[h].tier == HarnessTier::Worker
    &&& m.harnesses[h].worktree == new.canonical_root
    &&& new.preferred_session is Some ==> exists|s: int|
        {
            &&& 0 <= s < m.sessions.len()
            &&& (#[trigger] m.sessions[s]).id == new.preferred_session->0
            &&& m.sessions[s].harness == new.worker
            &&& forall|j: int| 0 <= j < s ==> (#[trigger] m.sessions[j]).id != m.sessions[s].id
        }
    &&& are_stored(m, attachments)
    &&& forall|k: int|
        0 <= k < depends_on.len() ==> is_sound(m, new.canonical_root, #[trigger] depends_on[k])
    &&& forall|t: int| 0 <= t < m.tasks.len() ==> (#[trigger] m.tasks[t]).id != new.id
    &&& forall|x: int| 0 <= x < m.messages.len() ==> (#[trigger] m.messages[x]).id != new.message
}

/// A new Task is taken where everything that it refers to is in order and its edges close no cycle,
/// and refused where something is not.
pub proof fn tasks_in_order_are_taken(
    m: Model,
    q: KeyedRequest,
    new: NewTask,
    depends_on: Seq<DeclaredDependency>,
    attachments: Seq<AttachmentId>,
    h: int,
)
    requires
        is_new(m, q),
    ensures
        ({
            let answer = create_task(m, q, new, depends_on, attachments);
            let unknown = forall|j: int|
                0 <= j < m.harnesses.len() ==> (#[trigger] m.harnesses[j]).key != new.worker;
            &&& is_in_order(m, new, depends_on, attachments, h) && acyclic(
                placed(m, new, depends_on),
            ) ==> answer is Ok
            &&& answer is Ok && serves(m, new.worker, h) ==> is_in_order(
                m,
                new,
                depends_on,
                attachments,
                h,
            )
            &&& unknown ==> answer is Err && answer->Err_0.category == ErrorCategory::NotFound
            &&& serves(m, new.worker, h) && (m.harnesses[h].tier != HarnessTier::Worker
                || m.harnesses[h].worktree != new.canonical_root) ==> answer is Err
                && answer->Err_0.category == ErrorCategory::InvalidInput
            &&& answer is Ok ==> answer->Ok_0.1 == (KeyedOutcome::TaskCreated {
                task: new.id,
                message: new.message,
            })
        }),
{
    stored_ones_are_found(m, attachments);
    let refused = is_refused_dependency(m, new.canonical_root);
    first_says(depends_on, refused);
    assert forall|k: int| 0 <= k < depends_on.len() implies refused(#[trigger] depends_on[k])
        == !is_sound(m, new.canonical_root, depends_on[k]) by {
        sound_dependencies_are_accepted(m, new.canonical_root, depends_on[k]);
    }
    first_says(m.tasks, is_task(new.id));
    first_says(m.messages, is_message(new.message));
    first_says(m.harnesses, is_harness(new.worker));
    if serves(m, new.worker, h) {
        first_found(m.harnesses, is_harness(new.worker), h);
    }
    if forall|j: int|
        0 <= j < m.harnesses.len() ==> (#[trigger] m.harnesses[j]).key != new.worker {
        first_missing(m.harnesses, is_harness(new.worker));
    }
    let answer = create_task(m, q, new, depends_on, attachments);
    if is_in_order(m, new, depends_on, attachments, h) {
        if let Some(id) = new.preferred_session {
            let s = choose|s: int|
                {
                    &&& 0 <= s < m.sessions.len()
                    &&& (#[trigger] m.sessions[s]).id == id
                    &&& m.sessions[s].harness == new.worker
                    &&& forall|j: int|
                        0 <= j < s ==> (#[trigger] m.sessions[j]).id != m.sessions[s].id
                };
            first_found(m.sessions, is_session(id), s);
        }
        if let Some(k) = first_where(depends_on, refused) {
            assert(is_sound(m, new.canonical_root, depends_on[k]));
        }
        first_missing(m.tasks, is_task(new.id));
        first_missing(m.messages, is_message(new.message));
    }
    if answer is Ok && serves(m, new.worker, h) {
        if let Some(id) = new.preferred_session {
            first_says(m.sessions, is_session(id));
            let s = first_where(m.sessions, is_session(id))->0;
            assert(m.sessions[s].id == id && m.sessions[s].harness == new.worker);
            assert forall|j: int| 0 <= j < s implies (#[trigger] m.sessions[j]).id
                != m.sessions[s].id by {
                assert(!is_session(id)(m.sessions[j]));
            }
        }
        assert forall|k: int| 0 <= k < depends_on.len() implies is_sound(
            m,
            new.canonical_root,
            #[trigger] depends_on[k],
        ) by {
            assert(!refused(depends_on[k]));
        }
        assert forall|t: int| 0 <= t < m.tasks.len() implies (#[trigger] m.tasks[t]).id
            != new.id by {
            assert(!is_task(new.id)(m.tasks[t]));
        }
        assert forall|x: int| 0 <= x < m.messages.len() implies (#[trigger] m.messages[x]).id
            != new.message by {
            assert(!is_message(new.message)(m.messages[x]));
        }
    }
}

/// A new Task keeps what it was submitted with, expects the profile of its Worker's newest Session
/// and the model of its Worker, and its submission is the root Message to the Worker.
pub proof fn new_tasks_keep_their_submission(
    m: Model,
    q: KeyedRequest,
    new: NewTask,
    depends_on: Seq<DeclaredDependency>,
    attachments: Seq<AttachmentId>,
    h: int,
    s: int,
)
    requires
        is_new(m, q),
        create_task(m, q, new, depends_on, attachments) is Ok,
        serves(m, new.worker, h),
    ensures
        ({
            let after = create_task(m, q, new, depends_on, attachments)->Ok_0.0;
            let t = after.tasks.last();
            let x = after.messages.last();
            &&& after.tasks.len() == m.tasks.len() + 1
            &&& t.id == new.id
            &&& t.worker == new.worker
            &&& t.related == new.related
            &&& t.role == new.role
            &&& t.policy == new.policy
            &&& t.preferred_session == new.preferred_session
            &&& t.access == new.access
            &&& t.worktree == new.worktree
            &&& t.submission == new.submission
            &&& t.active_session is None
            &&& t.approval is None
            &&& t.expected_model == m.harnesses[h].model
            &&& 0 <= s < m.sessions.len() && m.sessions[s].harness == new.worker && (forall|j: int|
                s < j < m.sessions.len() ==> (#[trigger] m.sessions[j]).harness != new.worker)
                ==> t.expected_profile == m.sessions[s].profile && t.expected_tool_policy
                == m.sessions[s].profile
            &&& after.messages.len() == m.messages.len() + 1
            &&& x.id == new.message
            &&& x.task == Some(new.id)
            &&& x.sender == q.actor
            &&& x.recipient == new.worker
            &&& x.kind == StoredMessageKind::Task
            &&& x.reply_to is None
            &&& x.intent == DeliveryIntent::FollowUp
            &&& x.body == new.submission
        }),
{
    first_found(m.harnesses, is_harness(new.worker), h);
    if 0 <= s < m.sessions.len() && m.sessions[s].harness == new.worker && (forall|j: int|
        s < j < m.sessions.len() ==> (#[trigger] m.sessions[j]).harness != new.worker) {
        last_found(m.sessions, is_session_of(new.worker), s);
    }
    let rows = placed(m, new, depends_on);
    let n = m.tasks.len() as int;
    tasks_in_order_are_taken(m, q, new, depends_on, attachments, h);
    assert(stands(rows, new.id, n));
    places_are_found(rows, new.id, n);
    let seen = look_at_edges(rows, new.id);
    assert(seen.tasks == rows.tasks);
}

// ---------------------------------------------------------------------------------------------
// Results
// ---------------------------------------------------------------------------------------------

/// A Result is taken from the Worker that works on the Task, once for each revision, where
/// everything that it lists is stored; it is recorded for the present revision.
pub proof fn results_are_taken_once_from_the_worker(
    m: Model,
    actor: AuthenticatedActor,
    turn: Seq<char>,
    new: NewResult,
    attachments: Seq<AttachmentId>,
    verification: Seq<AttachmentId>,
    i: int,
)
    requires
        stands(m, new.task, i),
        new.snapshot.size_bytes <= i64::MAX,
        forall|a: int|
            0 <= a < m.attachments.len() ==> (#[trigger] m.attachments[a]).id != new.snapshot.id,
    ensures
        ({
            let t = m.tasks[i];
            let (after, answer) = complete_task(m, actor, turn, new, attachments, verification);
            let named = 1 <= byte_count(turn) <= 512;
            let own = t.worker == actor.id;
            let working = t.state == TaskState::Working;
            let known = are_stored(m, attachments + verification);
            let told = exists|r: int|
                0 <= r < m.results.len() && (#[trigger] m.results[r]).task == new.task
                    && m.results[r].revision == t.revision;
            &&& !named ==> answer is Err && answer->Err_0.category == ErrorCategory::InvalidInput
            &&& named && !own ==> answer is Err && answer->Err_0.category == ErrorCategory::Forbidden
            &&& named && own && !working ==> answer is Err && answer->Err_0.category
                == ErrorCategory::InvalidState
            &&& named && own && working && !known ==> answer is Err && answer->Err_0.category
                == ErrorCategory::NotFound
            &&& named && own && working && known && told ==> answer is Err
                && answer->Err_0.category == ErrorCategory::Conflict && after.results == m.results
            &&& named && own && working && known && !told ==> answer == Ok::<u32, Refusal>(
                t.revision,
            ) && after.results.len() == m.results.len() + 1 && after.results.last().task == new.task
                && after.results.last().revision == t.revision && after.results.last().turn
                == new.turn && after.results.last().manifest == new.manifest
                && after.results.last().summary == new.summary && after.results.last().snapshot
                == new.snapshot.id && !after.results.last().terminal
            &&& after.tasks == m.tasks
        }),
{
    let t = m.tasks[i];
    places_are_found(m, new.task, i);
    let evidence = attachments + verification;
    stored_ones_are_found(m, evidence);
    first_says(evidence, is_unknown_attachment(m));
    assert(!some_where(m.attachments, is_attachment(new.snapshot.id))) by {
        if some_where(m.attachments, is_attachment(new.snapshot.id)) {
            let a = choose|a: int|
                0 <= a < m.attachments.len() && is_attachment(new.snapshot.id)(
                    #[trigger] m.attachments[a],
                );
            assert(m.attachments[a].id == new.snapshot.id);
        }
    }
    let p = is_result(new.task, t.revision);
    if some_where(m.results, p) {
        let r = choose|r: int| 0 <= r < m.results.len() && p(#[trigger] m.results[r]);
        assert(m.results[r].task == new.task && m.results[r].revision == t.revision);
    }
    if exists|r: int|
        0 <= r < m.results.len() && (#[trigger] m.results[r]).task == new.task
            && m.results[r].revision == t.revision {
        let r = choose|r: int|
            0 <= r < m.results.len() && (#[trigger] m.results[r]).task == new.task
                && m.results[r].revision == t.revision;
        assert(p(m.results[r]));
    }
}

// ---------------------------------------------------------------------------------------------
// Attachments and keys
// ---------------------------------------------------------------------------------------------

/// An Attachment is indexed under a new identity, with a media type on one line and the bare name
/// of a file, each of 1 to 255 bytes.
pub proof fn attachments_have_plain_names(
    m: Model,
    row: AttachmentRow,
    media_type: Seq<char>,
    name: Seq<char>,
)
    ensures
        ({
            let answer = admit_attachment(m, row, media_type, name);
            let typed = 1 <= byte_count(media_type) <= 255 && forall|i: int|
                0 <= i < media_type.len() ==> #[trigger] media_type[i] != '\r' && media_type[i]
                    != '\n';
            let named = 1 <= byte_count(name) <= 255 && name != "."@ && name != ".."@ && forall|
                i: int,
            |
                0 <= i < name.len() ==> #[trigger] name[i] != '/';
            let unused = forall|a: int|
                0 <= a < m.attachments.len() ==> (#[trigger] m.attachments[a]).id != row.id;
            &&& answer is Ok == (typed && named && unused && row.size_bytes <= i64::MAX)
            &&& answer is Ok ==> answer->Ok_0.attachments == m.attachments.push(row)
            &&& !(typed && named) ==> answer->Err_0.category == ErrorCategory::InvalidInput
        }),
{
    if media_type.contains('\r') {
        let i = choose|i: int| 0 <= i < media_type.len() && media_type[i] == '\r';
        assert(media_type[i] == '\r');
    }
    if media_type.contains('\n') {
        let i = choose|i: int| 0 <= i < media_type.len() && media_type[i] == '\n';
        assert(media_type[i] == '\n');
    }
    if name.contains('/') {
        let i = choose|i: int| 0 <= i < name.len() && name[i] == '/';
        assert(name[i] == '/');
    }
    let p = is_attachment(row.id);
    if some_where(m.attachments, p) {
        let a = choose|a: int| 0 <= a < m.attachments.len() && p(#[trigger] m.attachments[a]);
        assert(m.attachments[a].id == row.id);
    }
    if exists|a: int|
        0 <= a < m.attachments.len() && (#[trigger] m.attachments[a]).id == row.id {
        let a = choose|a: int|
            0 <= a < m.attachments.len() && (#[trigger] m.attachments[a]).id == row.id;
        assert(p(m.attachments[a]));
    }
}

/// A request key belongs to the actor that used it, and to Tasks or Messages: it is answered as
/// before where the same actor uses it for the same payload again, refused where the payload is
/// another, and new for everyone else.
pub proof fn keys_belong_to_their_actor(m: Model, q: KeyedRequest, key: TextKey, k: int)
    requires
        q.request_key == Some(key),
    ensures
        ({
            let answer = recall(m, q);
            let used = 0 <= k < m.keyed.len() && m.keyed[k].actor == q.actor
                && m.keyed[k].creates_task == q.creates_task && m.keyed[k].request_key == key
                && forall|j: int|
                0 <= j < k ==> (#[trigger] m.keyed[j]).actor != q.actor || m.keyed[j].creates_task
                    != q.creates_task || m.keyed[j].request_key != key;
            let unused = forall|j: int|
                0 <= j < m.keyed.len() ==> (#[trigger] m.keyed[j]).actor != q.actor
                    || m.keyed[j].creates_task != q.creates_task || m.keyed[j].request_key != key;
            &&& unused ==> is_new(m, q)
            &&& used && m.keyed[k].payload == q.payload ==> answer == Ok::<
                Option<KeyedOutcome>,
                Refusal,
            >(Some(m.keyed[k].outcome))
            &&& used && m.keyed[k].payload != q.payload ==> answer is Err
                && answer->Err_0.category == ErrorCategory::Conflict
        }),
{
    let p = is_keyed(q.actor, q.creates_task, key);
    if 0 <= k < m.keyed.len() && m.keyed[k].actor == q.actor && m.keyed[k].creates_task
        == q.creates_task && m.keyed[k].request_key == key && (forall|j: int|
        0 <= j < k ==> (#[trigger] m.keyed[j]).actor != q.actor || m.keyed[j].creates_task
            != q.creates_task || m.keyed[j].request_key != key) {
        first_found(m.keyed, p, k);
    }
    if forall|j: int|
        0 <= j < m.keyed.len() ==> (#[trigger] m.keyed[j]).actor != q.actor
            || m.keyed[j].creates_task != q.creates_task || m.keyed[j].request_key != key {
        first_missing(m.keyed, p);
    }
}

} // verus!

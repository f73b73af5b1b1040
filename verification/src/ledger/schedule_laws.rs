//! When Tasks may start: what a Task that is created, or looked at again after a restart, finds at
//! the other ends of its edges.
use vstd::prelude::*;

use crate::contract::{DependencyCondition, DependencyFailurePolicy, TaskSchedulingState, TaskState};
use crate::error::Refusal;
use crate::identity::{AttachmentId, TaskId};
use crate::ledger::create::{
    create_task, creation_refusal, edges_of, is_refused_dependency, placed, recall,
    DeclaredDependency, KeyedRequest, NewTask,
};
use crate::ledger::dependencies::{
    is_lost_edge_of, is_result, is_unmet_of, look_at_edges, looked_at, recover_upto, reevaluate,
    result_snapshot, unmet,
};
use crate::ledger::{held, is_active_hold_on, is_task, Model};
use crate::rows::{DependencyRow, KeyedOutcome, TaskRow};
use crate::select::{first_found, first_missing, first_says, first_where};

verus! {

// ---------------------------------------------------------------------------------------------
// Rows
// ---------------------------------------------------------------------------------------------

/// The first Task with an identity stands at a place.
pub open spec fn stands(m: Model, id: TaskId, i: int) -> bool {
    &&& 0 <= i < m.tasks.len()
    &&& m.tasks[i].id == id
    &&& forall|j: int| 0 <= j < i ==> (#[trigger] m.tasks[j]).id != id
}

/// The first Result of a revision stands at a place.
pub open spec fn stored(m: Model, task: TaskId, revision: u32, r: int) -> bool {
    &&& 0 <= r < m.results.len()
    &&& m.results[r].task == task
    &&& m.results[r].revision == revision
    &&& forall|j: int|
        0 <= j < r ==> (#[trigger] m.results[j]).task != task || m.results[j].revision != revision
}

/// No Result of a revision is stored.
pub open spec fn unstored(m: Model, task: TaskId, revision: u32) -> bool {
    forall|j: int|
        0 <= j < m.results.len() ==> (#[trigger] m.results[j]).task != task
            || m.results[j].revision != revision
}

/// A Hold in force lies on the worktree of a Task.
pub open spec fn on_hold(m: Model, t: TaskRow) -> bool {
    exists|h: int|
        0 <= h < m.holds.len() && (#[trigger] m.holds[h]).worktree == t.worktree
            && !m.holds[h].cleared
}

pub(crate) proof fn places_are_found(m: Model, id: TaskId, i: int)
    requires
        stands(m, id, i),
    ensures
        first_where(m.tasks, is_task(id)) == Some(i),
{
    first_found(m.tasks, is_task(id), i);
}

pub(crate) proof fn results_are_found(m: Model, task: TaskId, revision: u32, r: int)
    ensures
        stored(m, task, revision, r) ==> result_snapshot(m, task, revision) == Some(
            m.results[r].snapshot,
        ),
        unstored(m, task, revision) ==> result_snapshot(m, task, revision) is None,
        result_snapshot(m, task, revision) is None ==> unstored(m, task, revision),
{
    if stored(m, task, revision, r) {
        first_found(m.results, is_result(task, revision), r);
    }
    if unstored(m, task, revision) {
        first_missing(m.results, is_result(task, revision));
    }
    first_says(m.results, is_result(task, revision));
    if result_snapshot(m, task, revision) is None {
        assert forall|j: int| 0 <= j < m.results.len() implies (#[trigger] m.results[j]).task
            != task || m.results[j].revision != revision by {
            assert(!is_result(task, revision)(m.results[j]));
        }
    }
}

pub(crate) proof fn holds_are_found(m: Model, t: TaskRow)
    ensures
        held(m, t.worktree) == on_hold(m, t),
{
    if on_hold(m, t) {
        let h = choose|h: int|
            0 <= h < m.holds.len() && (#[trigger] m.holds[h]).worktree == t.worktree
                && !m.holds[h].cleared;
        assert(is_active_hold_on(t.worktree)(m.holds[h]));
    }
    if held(m, t.worktree) {
        let h = choose|h: int|
            0 <= h < m.holds.len() && is_active_hold_on(t.worktree)(#[trigger] m.holds[h]);
        assert(m.holds[h].worktree == t.worktree && !m.holds[h].cleared);
    }
}

// ---------------------------------------------------------------------------------------------
// Edges
// ---------------------------------------------------------------------------------------------

/// What an edge comes to when its Task is looked at, by the row of the Task that it waits for.
///
/// An edge that waits for approval is satisfied by the approved revision of an approved Task, and
/// one that waits for a Result by the present revision of a Task that is approved or under review
/// and not held; in both cases the snapshot of that revision has to be stored. Otherwise the edge
/// stays as it was.
pub open spec fn comes_to(m: Model, before: DependencyRow, after: DependencyRow, u: TaskRow) -> bool {
    &&& after.task == before.task
    &&& after.upstream == before.upstream
    &&& after.condition == before.condition
    &&& after.policy == before.policy
    &&& after.bound == before.bound
    &&& before.condition == DependencyCondition::Approved && u.state == TaskState::Approved ==> (
    forall|revision: u32, r: int|
        u.approved_revision == Some(revision) && #[trigger] stored(m, u.id, revision, r)
            ==> after.satisfied == Some(revision) && after.snapshot == Some(m.results[r].snapshot))
    &&& before.condition == DependencyCondition::Approved && (u.state != TaskState::Approved
        || u.approved_revision is None || unstored(m, u.id, u.approved_revision->0))
        ==> after == before
    &&& before.condition == DependencyCondition::ResultReady && (u.state == TaskState::Approved
        || u.state == TaskState::Reviewing) && !on_hold(m, u) ==> (forall|r: int| #[trigger]
        stored(m, u.id, u.revision, r) ==> after.satisfied == Some(u.revision) && after.snapshot
            == Some(m.results[r].snapshot))
    &&& before.condition == DependencyCondition::ResultReady && (on_hold(m, u) || (u.state
        != TaskState::Approved && u.state != TaskState::Reviewing) || unstored(
        m,
        u.id,
        u.revision,
    )) ==> after == before
}

proof fn looking_says(m: Model, task: TaskId, d: DependencyRow, i: int)
    requires
        d.task == task,
        stands(m, d.upstream, i),
    ensures
        comes_to(m, d, looked_at(m, task, d), m.tasks[i]),
{
    let u = m.tasks[i];
    places_are_found(m, d.upstream, i);
    holds_are_found(m, u);
    let after = looked_at(m, task, d);
    assert forall|revision: u32, r: int|
        d.condition == DependencyCondition::Approved && u.state == TaskState::Approved
            && u.approved_revision == Some(revision) && #[trigger] stored(
            m,
            u.id,
            revision,
            r,
        ) implies after.satisfied == Some(revision) && after.snapshot == Some(
        m.results[r].snapshot,
    ) by {
        results_are_found(m, u.id, revision, r);
    }
    assert forall|r: int|
        d.condition == DependencyCondition::ResultReady && #[trigger] stored(
            m,
            u.id,
            u.revision,
            r,
        ) && !on_hold(m, u) && (u.state == TaskState::Approved || u.state
            == TaskState::Reviewing) implies after.satisfied == Some(u.revision)
        && after.snapshot == Some(m.results[r].snapshot) by {
        results_are_found(m, u.id, u.revision, r);
    }
    if u.approved_revision is Some {
        results_are_found(m, u.id, u.approved_revision->0, 0);
    }
    results_are_found(m, u.id, u.revision, 0);
}

// ---------------------------------------------------------------------------------------------
// Laws of creation
// ---------------------------------------------------------------------------------------------

/// The Tasks that a new Task depends on stand at places.
pub open spec fn upstream_places(
    m: Model,
    depends_on: Seq<DeclaredDependency>,
    places: Seq<int>,
) -> bool {
    &&& places.len() == depends_on.len()
    &&& forall|k: int|
        0 <= k < places.len() ==> stands(m, (#[trigger] depends_on[k]).task, places[k])
}

/// The edges of a new Task stand behind all others, one for each declared dependency in turn, and
/// each is satisfied at once where the Task that it waits for offers what it waits for.
pub proof fn new_edges_look_at_their_upstream_tasks(
    m: Model,
    q: KeyedRequest,
    new: NewTask,
    depends_on: Seq<DeclaredDependency>,
    attachments: Seq<AttachmentId>,
    places: Seq<int>,
)
    requires
        create_task(m, q, new, depends_on, attachments) is Ok,
        recall(m, q) == Ok::<Option<KeyedOutcome>, Refusal>(None),
        upstream_places(m, depends_on, places),
    ensures
        ({
            let next = create_task(m, q, new, depends_on, attachments)->Ok_0.0;
            let n = m.dependencies.len();
            &&& next.dependencies.len() == n + depends_on.len()
            &&& forall|j: int| 0 <= j < n && m.dependencies[j].task != new.id ==> #[trigger]
                next.dependencies[j] == m.dependencies[j]
            &&& forall|k: int|
                0 <= k < depends_on.len() ==> comes_to(
                    m,
                    DependencyRow {
                        task: new.id,
                        upstream: (#[trigger] depends_on[k]).task,
                        condition: depends_on[k].condition,
                        policy: depends_on[k].policy,
                        satisfied: None,
                        snapshot: None,
                        bound: false,
                    },
                    next.dependencies[n + k],
                    m.tasks[places[k]],
                )
        }),
{
    let next = create_task(m, q, new, depends_on, attachments)->Ok_0.0;
    let rows = placed(m, new, depends_on);
    let n = m.dependencies.len();
    assert(next.dependencies == look_at_edges(rows, new.id).dependencies);
    assert forall|k: int| 0 <= k < depends_on.len() implies comes_to(
        m,
        DependencyRow {
            task: new.id,
            upstream: (#[trigger] depends_on[k]).task,
            condition: depends_on[k].condition,
            policy: depends_on[k].policy,
            satisfied: None,
            snapshot: None,
            bound: false,
        },
        next.dependencies[n + k],
        m.tasks[places[k]],
    ) by {
        let d = rows.dependencies[n + k];
        assert(d == edges_of(new.id, depends_on)[k]);
        let i = places[k];
        assert(rows.tasks[i] == m.tasks[i]);
        assert forall|j: int| 0 <= j < i implies (#[trigger] rows.tasks[j]).id != d.upstream by {
            assert(rows.tasks[j] == m.tasks[j]);
        }
        looking_says(rows, new.id, d, i);
        same_rows_say_the_same(rows, m, d, looked_at(rows, new.id, d), m.tasks[i]);
    }
}

proof fn same_rows_say_the_same(
    a: Model,
    b: Model,
    before: DependencyRow,
    after: DependencyRow,
    u: TaskRow,
)
    requires
        a.results == b.results,
        a.holds == b.holds,
        comes_to(a, before, after, u),
    ensures
        comes_to(b, before, after, u),
{
    assert(on_hold(a, u) == on_hold(b, u));
    assert forall|revision: u32, r: int| #[trigger] stored(b, u.id, revision, r) implies stored(
        a,
        u.id,
        revision,
        r,
    ) by {}
}

/// An edge whose Task can never come: it failed or was cancelled.
pub open spec fn is_hopeless(m: Model, d: DependencyRow, u: TaskRow) -> bool {
    d.satisfied is None && (u.state == TaskState::Failed || u.state == TaskState::Cancelled)
}

/// A new Task stands behind all others. It is queued and ready once every edge is satisfied, is
/// cancelled at once where the first of its hopeless edges says so, and waits otherwise.
pub proof fn new_tasks_start_when_their_edges_are_satisfied(
    m: Model,
    q: KeyedRequest,
    new: NewTask,
    depends_on: Seq<DeclaredDependency>,
    attachments: Seq<AttachmentId>,
    places: Seq<int>,
)
    requires
        create_task(m, q, new, depends_on, attachments) is Ok,
        recall(m, q) == Ok::<Option<KeyedOutcome>, Refusal>(None),
        upstream_places(m, depends_on, places),
        forall|j: int| 0 <= j < m.dependencies.len() ==> (#[trigger] m.dependencies[j]).task
            != new.id,
    ensures
        ({
            let next = create_task(m, q, new, depends_on, attachments)->Ok_0.0;
            let n = m.dependencies.len();
            let t = next.tasks.last();
            let met = forall|k: int|
                0 <= k < depends_on.len() ==> (#[trigger] next.dependencies[n + k]).satisfied
                    is Some;
            &&& next.tasks.len() == m.tasks.len() + 1
            &&& next.tasks.drop_last() == m.tasks
            &&& t.id == new.id
            &&& t.worker == new.worker
            &&& t.revision == 1
            &&& t.approved_revision is None
            &&& met ==> t.state == TaskState::Queued && t.scheduling == TaskSchedulingState::Ready
            &&& !met ==> t.scheduling == TaskSchedulingState::Blocked
            &&& !met ==> t.state == TaskState::Queued || t.state == TaskState::Cancelled
            &&& t.state == TaskState::Cancelled ==> exists|k: int|
                0 <= k < depends_on.len() && is_hopeless(
                    m,
                    #[trigger] next.dependencies[n + k],
                    m.tasks[places[k]],
                ) && depends_on[k].policy == DependencyFailurePolicy::Cancel
            &&& forall|k: int|
                0 <= k < depends_on.len() && is_hopeless(
                    m,
                    #[trigger] next.dependencies[n + k],
                    m.tasks[places[k]],
                ) && (forall|j: int|
                    0 <= j < k ==> !is_hopeless(
                        m,
                        #[trigger] next.dependencies[n + j],
                        m.tasks[places[j]],
                    )) ==> (t.state == TaskState::Cancelled) == (depends_on[k].policy
                    == DependencyFailurePolicy::Cancel)
        }),
{
    let next = create_task(m, q, new, depends_on, attachments)->Ok_0.0;
    let rows = placed(m, new, depends_on);
    let seen = look_at_edges(rows, new.id);
    let after = reevaluate(rows, new.id);
    let n = m.dependencies.len();
    let last = m.tasks.len() as int;
    first_says(m.tasks, is_task(new.id));
    assert(creation_refusal(m, new, depends_on, attachments) is None);
    first_says(depends_on, is_refused_dependency(m, new.canonical_root));
    assert forall|j: int| 0 <= j < last implies !is_task(new.id)(#[trigger] seen.tasks[j]) by {
        assert(!is_task(new.id)(m.tasks[j]));
    }
    first_found(seen.tasks, is_task(new.id), last);
    assert(next.tasks == after.tasks);
    assert(next.dependencies == seen.dependencies);
    assert(next.tasks.drop_last() =~= m.tasks);
    new_edges_look_at_their_upstream_tasks(m, q, new, depends_on, attachments, places);
    // Edges of the new Task are the new edges.
    assert forall|j: int| 0 <= j < seen.dependencies.len() implies ((#[trigger] seen.dependencies[j]).task
        == new.id) == (j >= n) by {
        if j < n {
            assert(rows.dependencies[j] == m.dependencies[j]);
        } else {
            assert(rows.dependencies[j] == edges_of(new.id, depends_on)[j - n]);
        }
    }
    let met = forall|k: int|
        0 <= k < depends_on.len() ==> (#[trigger] next.dependencies[n + k]).satisfied is Some;
    assert(unmet(seen, new.id) == !met) by {
        if unmet(seen, new.id) {
            let j = choose|j: int|
                0 <= j < seen.dependencies.len() && is_unmet_of(new.id)(
                    #[trigger] seen.dependencies[j],
                );
            assert(next.dependencies[n + (j - n)].satisfied is None);
        }
        if !met {
            let k = choose|k: int|
                0 <= k < depends_on.len() && !((#[trigger] next.dependencies[n + k]).satisfied
                    is Some);
            assert(is_unmet_of(new.id)(seen.dependencies[n + k]));
        }
    }
    assert forall|k: int| 0 <= k < depends_on.len() implies is_lost_edge_of(seen, new.id)(
        #[trigger] next.dependencies[n + k],
    ) == is_hopeless(m, next.dependencies[n + k], m.tasks[places[k]]) by {
        let i = places[k];
        assert(stands(m, depends_on[k].task, i));
        assert(stands(seen, depends_on[k].task, i)) by {
            assert forall|j: int| 0 <= j < i implies (#[trigger] seen.tasks[j]).id
                != depends_on[k].task by {
                assert(seen.tasks[j] == m.tasks[j]);
            }
        }
        places_are_found(seen, depends_on[k].task, i);
        assert(rows.dependencies[n + k] == edges_of(new.id, depends_on)[k]);
    }
    let p = is_lost_edge_of(seen, new.id);
    first_says(seen.dependencies, p);
    match first_where(seen.dependencies, p) {
        Some(f) => {
            assert(p(seen.dependencies[f]));
            assert(f >= n);
            let k0 = f - n;
            assert(next.dependencies[n + k0] == seen.dependencies[f]);
            assert(is_hopeless(m, next.dependencies[n + k0], m.tasks[places[k0]]));
            assert(rows.dependencies[f] == edges_of(new.id, depends_on)[k0]);
            assert(!met);
            assert forall|k: int|
                0 <= k < depends_on.len() && is_hopeless(
                    m,
                    #[trigger] next.dependencies[n + k],
                    m.tasks[places[k]],
                ) && (forall|j: int|
                    0 <= j < k ==> !is_hopeless(
                        m,
                        #[trigger] next.dependencies[n + j],
                        m.tasks[places[j]],
                    )) implies k == k0 by {
                if k < k0 {
                    assert(!p(seen.dependencies[n + k]));
                } else if k > k0 {
                    assert(!is_hopeless(m, next.dependencies[n + k0], m.tasks[places[k0]]));
                }
            }
        },
        None => {
            assert forall|k: int| 0 <= k < depends_on.len() implies !is_hopeless(
                m,
                #[trigger] next.dependencies[n + k],
                m.tasks[places[k]],
            ) by {
                assert(!p(seen.dependencies[n + k]));
            }
        },
    }
}

/// A new Task all of whose edges wait for the approval of approved Tasks is ready at once, with the
/// approved revisions and their snapshots on its edges.
pub proof fn tasks_behind_approved_tasks_are_ready(
    m: Model,
    q: KeyedRequest,
    new: NewTask,
    depends_on: Seq<DeclaredDependency>,
    attachments: Seq<AttachmentId>,
    places: Seq<int>,
    results: Seq<int>,
)
    requires
        create_task(m, q, new, depends_on, attachments) is Ok,
        recall(m, q) == Ok::<Option<KeyedOutcome>, Refusal>(None),
        upstream_places(m, depends_on, places),
        forall|j: int| 0 <= j < m.dependencies.len() ==> (#[trigger] m.dependencies[j]).task
            != new.id,
        results.len() == depends_on.len(),
        forall|k: int|
            0 <= k < depends_on.len() ==> {
                let u = m.tasks[places[k]];
                &&& (#[trigger] depends_on[k]).condition == DependencyCondition::Approved
                &&& u.state == TaskState::Approved
                &&& u.approved_revision is Some
                &&& stored(m, u.id, u.approved_revision->0, results[k])
            },
    ensures
        ({
            let next = create_task(m, q, new, depends_on, attachments)->Ok_0.0;
            let n = m.dependencies.len();
            &&& next.tasks.last().id == new.id
            &&& next.tasks.last().state == TaskState::Queued
            &&& next.tasks.last().scheduling == TaskSchedulingState::Ready
            &&& forall|k: int|
                0 <= k < depends_on.len() ==> (#[trigger] next.dependencies[n + k]).satisfied
                    == m.tasks[places[k]].approved_revision && next.dependencies[n + k].snapshot
                    == Some(m.results[results[k]].snapshot)
        }),
{
    new_edges_look_at_their_upstream_tasks(m, q, new, depends_on, attachments, places);
    new_tasks_start_when_their_edges_are_satisfied(m, q, new, depends_on, attachments, places);
    let next = create_task(m, q, new, depends_on, attachments)->Ok_0.0;
    let n = m.dependencies.len();
    assert forall|k: int| 0 <= k < depends_on.len() implies (#[trigger] next.dependencies[n
        + k]).satisfied == m.tasks[places[k]].approved_revision && next.dependencies[n + k].snapshot
        == Some(m.results[results[k]].snapshot) by {
        let u = m.tasks[places[k]];
        assert(depends_on[k].condition == DependencyCondition::Approved);
        assert(stored(m, u.id, u.approved_revision->0, results[k]));
    }
}

// ---------------------------------------------------------------------------------------------
// Laws of recovery
// ---------------------------------------------------------------------------------------------

/// What recovery keeps: the places of Tasks and of edges, the states of all Tasks but those that
/// wait, Results and Holds.
spec fn recovers(a: Model, b: Model) -> bool {
    &&& b.results == a.results
    &&& b.holds == a.holds
    &&& b.tasks.len() == a.tasks.len()
    &&& forall|i: int|
        0 <= i < a.tasks.len() ==> (#[trigger] b.tasks[i]).id == a.tasks[i].id && (
        a.tasks[i].state != TaskState::Queued ==> b.tasks[i] == a.tasks[i])
    &&& b.dependencies.len() == a.dependencies.len()
    &&& forall|k: int|
        0 <= k < a.dependencies.len() ==> (#[trigger] b.dependencies[k]).task
            == a.dependencies[k].task && b.dependencies[k].upstream == a.dependencies[k].upstream
            && b.dependencies[k].condition == a.dependencies[k].condition
}

proof fn reevaluation_recovers(m: Model, task: TaskId, w: int)
    requires
        stands(m, task, w),
        m.tasks[w].state == TaskState::Queued,
    ensures
        recovers(m, reevaluate(m, task)),
        reevaluate(m, task).dependencies == look_at_edges(m, task).dependencies,
{
    let seen = look_at_edges(m, task);
    places_are_found(m, task, w);
    assert(seen.dependencies.len() == m.dependencies.len());
}

/// The edge of a Task whose upstream Task stands approved with a stored revision.
spec fn is_due(m: Model, k: int, i: int, r: int) -> bool {
    &&& 0 <= k < m.dependencies.len()
    &&& m.dependencies[k].condition == DependencyCondition::Approved
    &&& stands(m, m.dependencies[k].upstream, i)
    &&& m.tasks[i].state == TaskState::Approved
    &&& m.tasks[i].approved_revision is Some
    &&& stored(m, m.tasks[i].id, m.tasks[i].approved_revision->0, r)
}

proof fn due_edges_stay_due(a: Model, b: Model, k: int, i: int, r: int)
    requires
        recovers(a, b),
        is_due(a, k, i, r),
    ensures
        is_due(b, k, i, r),
        b.tasks[i] == a.tasks[i],
{
    assert(b.tasks[i] == a.tasks[i]);
    assert forall|j: int| 0 <= j < i implies (#[trigger] b.tasks[j]).id
        != b.dependencies[k].upstream by {
        assert(b.tasks[j].id == a.tasks[j].id);
    }
    assert(b.dependencies[k].upstream == a.dependencies[k].upstream);
}

proof fn recovery_goes_on(m: Model, n: nat, k: int, i: int, r: int, w: int)
    requires
        n <= m.tasks.len(),
        is_due(m, k, i, r),
        0 <= w < m.tasks.len(),
        m.tasks[w].id == m.dependencies[k].task,
        m.tasks[w].state == TaskState::Queued,
        m.tasks[w].scheduling == TaskSchedulingState::Blocked,
        forall|x: int, y: int|
            0 <= x < y < m.tasks.len() ==> (#[trigger] m.tasks[x]).id != (
            #[trigger] m.tasks[y]).id,
    ensures
        recovers(m, recover_upto(m, n)),
        ({
            let b = recover_upto(m, n);
            &&& n <= w ==> b.tasks[w] == m.tasks[w]
            &&& n > w ==> b.dependencies[k].satisfied == m.tasks[i].approved_revision
                && b.dependencies[k].snapshot == Some(m.results[r].snapshot)
        }),
    decreases n,
{
    if n > 0 {
        recovery_goes_on(m, (n - 1) as nat, k, i, r, w);
        let before = recover_upto(m, (n - 1) as nat);
        let b = recover_upto(m, n);
        let t = before.tasks[n - 1];
        assert(t.id == m.tasks[n - 1].id);
        due_edges_stay_due(m, before, k, i, r);
        if t.state == TaskState::Queued && t.scheduling == TaskSchedulingState::Blocked {
            assert(stands(before, t.id, n - 1)) by {
                assert forall|y: int| 0 <= y < n - 1 implies (#[trigger] before.tasks[y]).id
                    != t.id by {
                    assert(before.tasks[y].id == m.tasks[y].id);
                    assert(m.tasks[y].id != m.tasks[n - 1].id);
                }
            }
            reevaluation_recovers(before, t.id, n - 1);
            assert forall|x: int| 0 <= x < m.tasks.len() && x != n - 1 implies #[trigger] b.tasks[x]
                == before.tasks[x] by {
                let seen = look_at_edges(before, t.id);
                assert forall|y: int| 0 <= y < n - 1 implies !is_task(t.id)(
                    #[trigger] seen.tasks[y],
                ) by {
                    assert(before.tasks[y].id == m.tasks[y].id);
                    assert(m.tasks[y].id != m.tasks[n - 1].id);
                }
                first_found(seen.tasks, is_task(t.id), n - 1);
            }
            let d = before.dependencies[k];
            assert(b.dependencies[k] == looked_at(before, t.id, d));
            if d.task == t.id {
                looking_says(before, t.id, d, i);
                assert(stored(
                    before,
                    before.tasks[i].id,
                    before.tasks[i].approved_revision->0,
                    r,
                ));
            }
            if n - 1 == w {
                assert(d.task == t.id);
            }
        } else {
            assert(n - 1 != w);
        }
        assert forall|x: int| 0 <= x < m.tasks.len() implies (#[trigger] b.tasks[x]).id
            == m.tasks[x].id && (m.tasks[x].state != TaskState::Queued ==> b.tasks[x]
            == m.tasks[x]) by {
            assert(before.tasks[x].id == m.tasks[x].id);
        }
        assert forall|x: int| 0 <= x < m.dependencies.len() implies (
        #[trigger] b.dependencies[x]).task == m.dependencies[x].task && b.dependencies[x].upstream
            == m.dependencies[x].upstream && b.dependencies[x].condition
            == m.dependencies[x].condition by {
            assert(before.dependencies[x].task == m.dependencies[x].task);
        }
    }
}

/// After a restart every edge of a waiting Task that waits for the approval of an approved Task is
/// satisfied by the approved revision and its snapshot.
pub proof fn recovery_satisfies_approved_edges(m: Model, k: int, i: int, r: int, w: int)
    requires
        0 <= k < m.dependencies.len(),
        m.dependencies[k].condition == DependencyCondition::Approved,
        stands(m, m.dependencies[k].upstream, i),
        m.tasks[i].state == TaskState::Approved,
        m.tasks[i].approved_revision is Some,
        stored(m, m.tasks[i].id, m.tasks[i].approved_revision->0, r),
        0 <= w < m.tasks.len(),
        m.tasks[w].id == m.dependencies[k].task,
        m.tasks[w].state == TaskState::Queued,
        m.tasks[w].scheduling == TaskSchedulingState::Blocked,
        forall|x: int, y: int|
            0 <= x < y < m.tasks.len() ==> (#[trigger] m.tasks[x]).id != (
            #[trigger] m.tasks[y]).id,
    ensures
        ({
            let after = recover_upto(m, m.tasks.len());
            &&& after.dependencies[k].satisfied == m.tasks[i].approved_revision
            &&& after.dependencies[k].snapshot == Some(m.results[r].snapshot)
        }),
{
    recovery_goes_on(m, m.tasks.len(), k, i, r, w);
}

} // verus!

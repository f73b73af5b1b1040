//! The dependency graph stays free of cycles.
use vstd::prelude::*;

use crate::error::Refusal;
use crate::graph::{known, orderable, ordered_by};
use crate::identity::{AttachmentId, TaskId};
use crate::ledger::create::{
    acyclic, create_task, creation_refusal, is_refused_dependency, placed, recall, task_ids,
    DeclaredDependency, KeyedRequest, NewTask,
};
use crate::ledger::dependencies::{look_at_edges, looked_at, reevaluate};
use crate::ledger::{find_task, is_task, Model};
use crate::rows::{DependencyRow, KeyedOutcome};
use crate::select::{first_found, first_says};

verus! {

/// Whether a graph has an order depends on the ends of its edges alone.
pub proof fn order_depends_on_ends(nodes: Seq<TaskId>, a: Seq<DependencyRow>, b: Seq<DependencyRow>)
    requires
        orderable(nodes, a),
        a.len() == b.len(),
        forall|k: int|
            0 <= k < a.len() ==> (#[trigger] b[k]).task == a[k].task && b[k].upstream
                == a[k].upstream,
    ensures
        orderable(nodes, b),
{
    let rank = choose|rank: Map<TaskId, nat>| ordered_by(nodes, a, rank);
    assert forall|k: int| 0 <= k < b.len() implies known(nodes, b, (#[trigger] b[k]).upstream)
        && rank[b[k].upstream] < rank[b[k].task] by {
        assert(known(nodes, a, a[k].upstream));
        if !nodes.contains(a[k].upstream) {
            let j = choose|j: int| 0 <= j < a.len() && (#[trigger] a[j]).task == a[k].upstream;
            assert(b[j].task == b[k].upstream);
        }
    }
    assert(ordered_by(nodes, b, rank));
}

/// A Task is created only where the dependencies of all Tasks can still be worked off in some
/// order: creation keeps the graph free of cycles.
pub proof fn creations_keep_the_graph_acyclic(
    m: Model,
    q: KeyedRequest,
    new: NewTask,
    depends_on: Seq<DeclaredDependency>,
    attachments: Seq<AttachmentId>,
)
    requires
        acyclic(m),
    ensures
        match create_task(m, q, new, depends_on, attachments) {
            Ok((next, _)) => acyclic(next),
            Err(_) => true,
        },
{
    if let Ok((b, _)) = create_task(m, q, new, depends_on, attachments) {
        if recall(m, q) == Ok::<Option<KeyedOutcome>, Refusal>(None) {
            let rows = placed(m, new, depends_on);
            let seen = look_at_edges(rows, new.id);
            let after = reevaluate(rows, new.id);
            assert(creation_refusal(m, new, depends_on, attachments) is None);
            first_says(m.tasks, is_task(new.id));
            first_says(depends_on, is_refused_dependency(m, new.canonical_root));
            assert(find_task(m, new.id) is None);
            let last = m.tasks.len() as int;
            assert forall|j: int| 0 <= j < last implies !is_task(new.id)(
                #[trigger] seen.tasks[j],
            ) by {
                assert(!is_task(new.id)(m.tasks[j]));
            }
            first_found(seen.tasks, is_task(new.id), last);
            assert(b.tasks == after.tasks);
            assert(b.dependencies == after.dependencies);
            assert forall|k: int| 0 <= k < b.dependencies.len() implies (
            #[trigger] b.dependencies[k]).task == rows.dependencies[k].task
                && b.dependencies[k].upstream == rows.dependencies[k].upstream by {
                assert(b.dependencies[k] == looked_at(rows, new.id, rows.dependencies[k]));
            }
            assert(task_ids(b.tasks) =~= task_ids(rows.tasks));
            order_depends_on_ends(task_ids(rows.tasks), rows.dependencies, b.dependencies);
        }
    }
}

} // verus!

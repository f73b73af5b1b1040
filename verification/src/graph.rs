//! Acyclicity of the dependency graph.
use std::collections::VecDeque;
use vstd::prelude::*;

use crate::error::{refusal, refuse, CoordinatorError, ErrorCategory};
use crate::identity::TaskId;
use crate::rows::DependencyRow;

verus! {

/// A Task that the graph knows: a listed one or one that declares a dependency.
pub open spec fn known(nodes: Seq<TaskId>, edges: Seq<DependencyRow>, id: TaskId) -> bool {
    nodes.contains(id) || exists|k: int| 0 <= k < edges.len() && (#[trigger] edges[k]).task == id
}

/// Every dependency is known and stands before the Task that declares it.
pub open spec fn ordered_by(
    nodes: Seq<TaskId>,
    edges: Seq<DependencyRow>,
    rank: Map<TaskId, nat>,
) -> bool {
    forall|k: int|
        0 <= k < edges.len() ==> known(nodes, edges, (#[trigger] edges[k]).upstream)
            && rank[edges[k].upstream] < rank[edges[k].task]
}

/// The Tasks can be worked off so that every dependency comes first.
pub open spec fn orderable(nodes: Seq<TaskId>, edges: Seq<DependencyRow>) -> bool {
    exists|rank: Map<TaskId, nat>| ordered_by(nodes, edges, rank)
}

/// A walk along declared dependencies, each Task followed by one that it waits for.
pub open spec fn walk(edges: Seq<DependencyRow>, path: Seq<TaskId>) -> bool {
    forall|i: int|
        0 <= i < path.len() - 1 ==> exists|k: int|
            0 <= k < edges.len() && edges[k].task == #[trigger] path[i] && edges[k].upstream
                == path[i + 1]
}

proof fn rank_falls(
    nodes: Seq<TaskId>,
    edges: Seq<DependencyRow>,
    rank: Map<TaskId, nat>,
    path: Seq<TaskId>,
    n: int,
)
    requires
        ordered_by(nodes, edges, rank),
        walk(edges, path),
        0 <= n < path.len(),
    ensures
        rank[path[n]] + n <= rank[path[0]],
    decreases n,
{
    if n > 0 {
        rank_falls(nodes, edges, rank, path, n - 1);
        assert(path[n - 1] == path[n - 1]);
        let k = choose|k: int|
            0 <= k < edges.len() && edges[k].task == path[n - 1] && edges[k].upstream == path[n
                - 1 + 1];
        assert(rank[edges[k].upstream] < rank[edges[k].task]);
    }
}

/// An orderable graph has no cycle: no walk along dependencies comes back to its start.
pub proof fn orderable_has_no_cycle(
    nodes: Seq<TaskId>,
    edges: Seq<DependencyRow>,
    path: Seq<TaskId>,
)
    requires
        orderable(nodes, edges),
        walk(edges, path),
        path.len() >= 2,
    ensures
        path[0] != path.last(),
{
    let rank = choose|rank: Map<TaskId, nat>| ordered_by(nodes, edges, rank);
    rank_falls(nodes, edges, rank, path, path.len() - 1);
}

/// Dependencies of `id` among the first `n` edges that are not done; of the first `cut` edges
/// those to `u` count as done too.
spec fn pending(
    edges: Seq<DependencyRow>,
    id: TaskId,
    done: Set<TaskId>,
    cut: int,
    u: TaskId,
    n: nat,
) -> nat
    decreases n,
{
    if n == 0 {
        0
    } else {
        let e = edges[n - 1];
        pending(edges, id, done, cut, u, (n - 1) as nat) + if e.task == id && !done.contains(
            e.upstream,
        ) && !(n - 1 < cut && e.upstream == u) {
            1nat
        } else {
            0nat
        }
    }
}

proof fn pending_step(
    edges: Seq<DependencyRow>,
    id: TaskId,
    done: Set<TaskId>,
    cut: int,
    u: TaskId,
    n: nat,
)
    requires
        0 <= cut < edges.len(),
        n <= edges.len(),
    ensures
        pending(edges, id, done, cut, u, n) == pending(edges, id, done, cut + 1, u, n) + if cut < n
            && edges[cut].task == id && edges[cut].upstream == u && !done.contains(u) {
            1nat
        } else {
            0nat
        },
    decreases n,
{
    if n > 0 {
        pending_step(edges, id, done, cut, u, (n - 1) as nat);
    }
}

proof fn pending_done(
    edges: Seq<DependencyRow>,
    id: TaskId,
    done: Set<TaskId>,
    u: TaskId,
    v: TaskId,
    n: nat,
)
    requires
        n <= edges.len(),
    ensures
        pending(edges, id, done, edges.len() as int, u, n) == pending(
            edges,
            id,
            done.insert(u),
            0,
            v,
            n,
        ),
    decreases n,
{
    if n > 0 {
        pending_done(edges, id, done, u, v, (n - 1) as nat);
    }
}

proof fn pending_start(
    edges: Seq<DependencyRow>,
    id: TaskId,
    done: Set<TaskId>,
    u: TaskId,
    v: TaskId,
    n: nat,
)
    requires
        n <= edges.len(),
    ensures
        pending(edges, id, done, 0, u, n) == pending(edges, id, done, 0, v, n),
    decreases n,
{
    if n > 0 {
        pending_start(edges, id, done, u, v, (n - 1) as nat);
    }
}

proof fn pending_zero(
    edges: Seq<DependencyRow>,
    id: TaskId,
    done: Set<TaskId>,
    u: TaskId,
    n: nat,
)
    requires
        n <= edges.len(),
    ensures
        pending(edges, id, done, 0, u, n) == 0 <==> forall|k: int|
            0 <= k < n && (#[trigger] edges[k]).task == id ==> done.contains(edges[k].upstream),
        pending(edges, id, done, 0, u, n) <= n,
    decreases n,
{
    if n > 0 {
        pending_zero(edges, id, done, u, (n - 1) as nat);
        if edges[n - 1].task == id && !done.contains(edges[n - 1].upstream) {
            assert(!(forall|k: int|
                0 <= k < n && (#[trigger] edges[k]).task == id ==> done.contains(
                    edges[k].upstream,
                )));
        }
    }
}

fn position(names: &Vec<TaskId>, id: TaskId) -> (r: Option<usize>)
    ensures
        match r {
            Some(i) => i < names.len() && names@[i as int] == id,
            None => !names@.contains(id),
        },
{
    let mut i: usize = 0;
    while i < names.len()
        invariant
            i <= names.len(),
            forall|j: int| 0 <= j < i ==> names@[j] != id,
        decreases names.len() - i,
    {
        if names[i] == id {
            return Some(i);
        }
        i += 1;
    }
    None
}

spec fn no_repeats(s: Seq<TaskId>) -> bool {
    forall|i: int, j: int| 0 <= i < j < s.len() ==> #[trigger] s[i] != #[trigger] s[j]
}

/// The known Tasks, each once.
fn known_tasks(nodes: &Vec<TaskId>, edges: &Vec<DependencyRow>) -> (r: Vec<TaskId>)
    ensures
        no_repeats(r@),
        forall|id: TaskId| r@.contains(id) <==> known(nodes@, edges@, id),
{
    let mut r: Vec<TaskId> = Vec::new();
    let mut i: usize = 0;
    while i < nodes.len()
        invariant
            i <= nodes.len(),
            no_repeats(r@),
            forall|id: TaskId| r@.contains(id) <==> nodes@.take(i as int).contains(id),
        decreases nodes.len() - i,
    {
        let id = nodes[i];
        let ghost before = r@;
        if position(&r, id).is_none() {
            r.push(id);
        }
        assert forall|x: TaskId| r@.contains(x) <==> nodes@.take(i + 1).contains(x) by {
            assert(nodes@.take(i + 1) =~= nodes@.take(i as int).push(id));
            assert(before.contains(x) <==> nodes@.take(i as int).contains(x));
            pushed_contains(nodes@.take(i as int), id, x);
            pushed_contains(before, id, x);
        }
        i += 1;
    }
    assert(nodes@.take(i as int) =~= nodes@);
    let mut k: usize = 0;
    while k < edges.len()
        invariant
            k <= edges.len(),
            no_repeats(r@),
            forall|id: TaskId|
                r@.contains(id) <==> (nodes@.contains(id) || exists|j: int|
                    0 <= j < k && (#[trigger] edges@[j]).task == id),
        decreases edges.len() - k,
    {
        let id = edges[k].task;
        let ghost before = r@;
        if position(&r, id).is_none() {
            r.push(id);
        }
        assert forall|x: TaskId|
            r@.contains(x) <==> (nodes@.contains(x) || exists|j: int|
                0 <= j < k + 1 && (#[trigger] edges@[j]).task == x) by {
            pushed_contains(before, id, x);
            assert(edges@[k as int].task == id);
            if before.contains(x) && !nodes@.contains(x) {
                let j = choose|j: int| 0 <= j < k && (#[trigger] edges@[j]).task == x;
                assert(edges@[j].task == x);
            }
        }
        k += 1;
    }
    r
}

proof fn pushed_contains(s: Seq<TaskId>, id: TaskId, x: TaskId)
    ensures
        s.push(id).contains(x) <==> s.contains(x) || x == id,
{
    if s.contains(x) {
        let j = s.index_of(x);
        assert(s.push(id)[j] == x);
    }
    if x == id {
        assert(s.push(id)[s.len() as int] == x);
    }
}

/// Tasks worked off so far, in order; each after all that it waits for.
spec fn in_order(edges: Seq<DependencyRow>, order: Seq<TaskId>) -> bool {
    forall|p: int, k: int|
        0 <= p < order.len() && 0 <= k < edges.len() && (#[trigger] edges[k]).task
            == #[trigger] order[p] ==> order.take(p).contains(edges[k].upstream)
}

proof fn order_gives_rank(
    nodes: Seq<TaskId>,
    edges: Seq<DependencyRow>,
    order: Seq<TaskId>,
)
    requires
        in_order(edges, order),
        no_repeats(order),
        forall|id: TaskId| known(nodes, edges, id) ==> order.contains(id),
        forall|id: TaskId| order.contains(id) ==> known(nodes, edges, id),
    ensures
        orderable(nodes, edges),
{
    let rank = Map::new(|id: TaskId| order.contains(id), |id: TaskId| order.index_of(id) as nat);
    assert forall|k: int| 0 <= k < edges.len() implies known(
        nodes,
        edges,
        (#[trigger] edges[k]).upstream,
    ) && rank[edges[k].upstream] < rank[edges[k].task] by {
        let t = edges[k].task;
        assert(known(nodes, edges, t));
        assert(order.contains(t));
        let p = order.index_of(t);
        assert(order[p] == t);
        assert(order.take(p).contains(edges[k].upstream));
        let r = order.take(p).index_of(edges[k].upstream);
        assert(order.take(p)[r] == edges[k].upstream);
        assert(order[r] == edges[k].upstream);
        assert(order.contains(edges[k].upstream));
        assert(order[order.index_of(edges[k].upstream)] == order[r]);
    }
    assert(ordered_by(nodes, edges, rank));
}

/// Some known Task always waits for one that is not done: then no order exists.
proof fn stuck_is_unorderable(
    nodes: Seq<TaskId>,
    edges: Seq<DependencyRow>,
    done: Set<TaskId>,
    id: TaskId,
)
    requires
        known(nodes, edges, id),
        !done.contains(id),
        forall|x: TaskId|
            known(nodes, edges, x) && !done.contains(x) ==> exists|k: int|
                0 <= k < edges.len() && (#[trigger] edges[k]).task == x && !done.contains(
                    edges[k].upstream,
                ),
    ensures
        !orderable(nodes, edges),
{
    if orderable(nodes, edges) {
        let rank = choose|rank: Map<TaskId, nat>| ordered_by(nodes, edges, rank);
        descend(nodes, edges, done, rank, id);
    }
}

proof fn descend(
    nodes: Seq<TaskId>,
    edges: Seq<DependencyRow>,
    done: Set<TaskId>,
    rank: Map<TaskId, nat>,
    id: TaskId,
)
    requires
        known(nodes, edges, id),
        !done.contains(id),
        forall|x: TaskId|
            known(nodes, edges, x) && !done.contains(x) ==> exists|k: int|
                0 <= k < edges.len() && (#[trigger] edges[k]).task == x && !done.contains(
                    edges[k].upstream,
                ),
    ensures
        !ordered_by(nodes, edges, rank),
    decreases rank[id],
{
    if ordered_by(nodes, edges, rank) {
        let k = choose|k: int|
            0 <= k < edges.len() && (#[trigger] edges[k]).task == id && !done.contains(
                edges[k].upstream,
            );
        assert(known(nodes, edges, edges[k].upstream));
        descend(nodes, edges, done, rank, edges[k].upstream);
    }
}

spec fn is_open() -> spec_fn(bool) -> bool {
    |done: bool| !done
}

/// The queue holds exactly the open Tasks that wait for nothing.
spec fn queue_fits(queue: Seq<usize>, incoming: Seq<usize>, flags: Seq<bool>) -> bool {
    &&& incoming.len() == flags.len()
    &&& forall|a: int|
        0 <= a < queue.len() ==> #[trigger] queue[a] < flags.len() && incoming[queue[a] as int] == 0
            && !flags[queue[a] as int]
    &&& forall|a: int, b: int| 0 <= a < b < queue.len() ==> #[trigger] queue[a] != #[trigger] queue[b]
    &&& forall|i: int|
        0 <= i < flags.len() && #[trigger] incoming[i] == 0 ==> flags[i] || queue.contains(
            i as usize,
        )
    &&& forall|i: int| 0 <= i < flags.len() && #[trigger] flags[i] ==> incoming[i] == 0
}

/// What is done is what was worked off, in order.
spec fn order_fits(
    edges: Seq<DependencyRow>,
    names: Seq<TaskId>,
    flags: Seq<bool>,
    done: Set<TaskId>,
    order: Seq<TaskId>,
) -> bool {
    &&& names.len() == flags.len()
    &&& forall|i: int| 0 <= i < names.len() ==> (#[trigger] flags[i] <==> done.contains(names[i]))
    &&& forall|id: TaskId| #[trigger] done.contains(id) <==> order.contains(id)
    &&& forall|id: TaskId| order.contains(id) ==> #[trigger] names.contains(id)
    &&& no_repeats(order)
    &&& in_order(edges, order)
}

fn count_incoming(names: &Vec<TaskId>, edges: &Vec<DependencyRow>) -> (r: Vec<usize>)
    requires
        no_repeats(names@),
        forall|k: int| 0 <= k < edges.len() ==> names@.contains((#[trigger] edges@[k]).task),
    ensures
        r.len() == names.len(),
        forall|i: int|
            0 <= i < names.len() ==> #[trigger] r@[i] == pending(
                edges@,
                names@[i],
                Set::empty(),
                0,
                TaskId(0),
                edges.len() as nat,
            ),
{
    let mut r: Vec<usize> = Vec::new();
    while r.len() < names.len()
        invariant
            r.len() <= names.len(),
            forall|i: int| 0 <= i < r.len() ==> #[trigger] r@[i] == 0,
        decreases names.len() - r.len(),
    {
        r.push(0);
    }
    let mut k: usize = 0;
    while k < edges.len()
        invariant
            k <= edges.len(),
            r.len() == names.len(),
            no_repeats(names@),
            forall|j: int| 0 <= j < edges.len() ==> names@.contains((#[trigger] edges@[j]).task),
            forall|i: int|
                0 <= i < names.len() ==> #[trigger] r@[i] == pending(
                    edges@,
                    names@[i],
                    Set::empty(),
                    0,
                    TaskId(0),
                    k as nat,
                ),
        decreases edges.len() - k,
    {
        let id = edges[k].task;
        assert(names@.contains(edges@[k as int].task));
        if let Some(i) = position(names, id) {
            proof {
                pending_zero(edges@, names@[i as int], Set::empty(), TaskId(0), k as nat);
            }
            let n: usize = r[i];
            r.set(i, n + 1);
        }
        k += 1;
    }
    r
}

/// Refuses a dependency graph with a cycle. Kahn's algorithm: Tasks that wait for nothing are
/// worked off first in, first out, until none is left.
pub fn validate_acyclic_task_graph(nodes: &Vec<TaskId>, edges: &Vec<DependencyRow>) -> (r: Result<
    (),
    CoordinatorError,
>)
    ensures
        match r {
            Ok(_) => orderable(nodes@, edges@),
            Err(e) => !orderable(nodes@, edges@) && e@ == refusal(
                ErrorCategory::InvalidInput,
                "Task dependencies contain a cycle"@,
            ),
        },
{
    let names = known_tasks(nodes, edges);
    let ghost len = edges@.len();
    assert forall|k: int| 0 <= k < edges.len() implies names@.contains(
        (#[trigger] edges@[k]).task,
    ) by {
        assert(known(nodes@, edges@, edges@[k].task));
    }
    let mut incoming = count_incoming(&names, edges);
    let mut flags: Vec<bool> = Vec::new();
    let mut queue: VecDeque<usize> = VecDeque::new();
    while flags.len() < names.len()
        invariant
            flags.len() <= names.len(),
            incoming.len() == names.len(),
            forall|i: int| 0 <= i < flags.len() ==> !(#[trigger] flags@[i]),
            forall|a: int|
                0 <= a < queue@.len() ==> #[trigger] queue@[a] < flags.len()
                    && incoming@[queue@[a] as int] == 0,
            forall|a: int, b: int|
                0 <= a < b < queue@.len() ==> #[trigger] queue@[a] != #[trigger] queue@[b],
            forall|i: int|
                0 <= i < flags.len() && #[trigger] incoming@[i] == 0 ==> queue@.contains(
                    i as usize,
                ),
        decreases names.len() - flags.len(),
    {
        let i: usize = flags.len();
        let ghost before = queue@;
        if incoming[i] == 0 {
            queue.push_back(i);
            assert(queue@[before.len() as int] == i);
        }
        assert forall|x: int| 0 <= x < i && #[trigger] incoming@[x] == 0 implies queue@.contains(
            x as usize,
        ) by {
            let a = before.index_of(x as usize);
            assert(queue@[a] == x as usize);
        }
        flags.push(false);
    }
    let ghost mut done = Set::<TaskId>::empty();
    let ghost mut order = Seq::<TaskId>::empty();
    assert forall|i: int| 0 <= i < flags.len() implies (#[trigger] flags@[i] <==> done.contains(
        names@[i],
    )) by {}
    assert(order_fits(edges@, names@, flags@, done, order));
    while queue.len() > 0
        invariant
            names.len() == flags.len(),
            names.len() == incoming.len(),
            len == edges@.len(),
            no_repeats(names@),
            forall|id: TaskId| names@.contains(id) <==> known(nodes@, edges@, id),
            queue_fits(queue@, incoming@, flags@),
            order_fits(edges@, names@, flags@, done, order),
            forall|i: int|
                0 <= i < names.len() ==> #[trigger] incoming@[i] == pending(
                    edges@,
                    names@[i],
                    done,
                    0,
                    TaskId(0),
                    len,
                ),
        decreases crate::select::count_where(flags@, is_open()),
    {
        let ghost waiting = queue@;
        let popped = queue.pop_front();
        if let Some(x) = popped {
            assert(waiting[0] == x);
            assert(queue@ =~= waiting.drop_first());
            let u = names[x];
            let ghost before = done;
            proof {
                assert(!flags@[x as int]);
                assert(!done.contains(u));
                crate::select::count_update(flags@, is_open(), x as int, true);
                pending_zero(edges@, u, done, TaskId(0), len);
                let next = order.push(u);
                assert forall|p: int, k: int|
                    0 <= p < next.len() && 0 <= k < edges@.len() && (#[trigger] edges@[k]).task
                        == #[trigger] next[p] implies next.take(p).contains(
                    edges@[k].upstream,
                ) by {
                    assert(next.take(p) =~= order.take(p));
                    if p == order.len() {
                        assert(order.take(p) =~= order);
                        assert(done.contains(edges@[k].upstream));
                    } else {
                        assert(order[p] == next[p]);
                    }
                }
                assert(!order.contains(u)) by {
                    assert(!done.contains(u));
                }
                assert forall|i: int, j: int| 0 <= i < j < next.len() implies #[trigger] next[i]
                    != #[trigger] next[j] by {
                    if j == order.len() {
                        assert(order.contains(next[i]) || next[i] != u);
                        assert(next[i] == order[i]);
                        assert(order.contains(order[i]));
                    }
                }
                assert forall|id: TaskId| #[trigger] done.insert(u).contains(id)
                    <==> next.contains(id) by {
                    pushed_contains(order, u, id);
                    assert(done.contains(id) <==> order.contains(id));
                }
                assert forall|id: TaskId| next.contains(id) implies #[trigger] names@.contains(
                    id,
                ) by {
                    pushed_contains(order, u, id);
                    assert(names@[x as int] == u);
                }
            }
            flags.set(x, true);
            proof {
                order = order.push(u);
                done = done.insert(u);
                assert forall|i: int| 0 <= i < names.len() implies (#[trigger] flags@[i]
                    <==> done.contains(names@[i])) by {
                    if i != x {
                        assert(names@[i] != u);
                    }
                }
                assert forall|i: int| 0 <= i < names.len() implies #[trigger] incoming@[i]
                    == pending(edges@, names@[i], before, 0, u, len) by {
                    pending_start(edges@, names@[i], before, TaskId(0), u, len);
                }
                assert(queue_fits(queue@, incoming@, flags@)) by {
                    assert forall|i: int|
                        0 <= i < flags.len() && #[trigger] incoming@[i] == 0 implies flags@[i]
                        || queue@.contains(i as usize) by {
                        if i != x {
                            if waiting.contains(i as usize) {
                                let a = waiting.index_of(i as usize);
                                assert(queue@[a - 1] == i as usize);
                            }
                        }
                    }
                }
            }
            let mut k: usize = 0;
            while k < edges.len()
                invariant
                    k <= edges.len(),
                    len == edges@.len(),
                    names.len() == flags.len(),
                    names.len() == incoming.len(),
                    no_repeats(names@),
                    !before.contains(u),
                    done == before.insert(u),
                    queue_fits(queue@, incoming@, flags@),
                    forall|i: int|
                        0 <= i < names.len() ==> #[trigger] incoming@[i] == pending(
                            edges@,
                            names@[i],
                            before,
                            k as int,
                            u,
                            len,
                        ),
                    forall|id: TaskId| names@.contains(id) <==> known(nodes@, edges@, id),
                decreases edges.len() - k,
            {
                let e = edges[k];
                proof {
                    assert(known(nodes@, edges@, edges@[k as int].task));
                    assert forall|i: int| 0 <= i < names.len() implies #[trigger] incoming@[i]
                        == pending(edges@, names@[i], before, k + 1, u, len) + if e.task
                        == names@[i] && e.upstream == u {
                        1nat
                    } else {
                        0nat
                    } by {
                        pending_step(edges@, names@[i], before, k as int, u, len);
                    }
                }
                if e.upstream == u {
                    let at = position(&names, e.task);
                    if let Some(i) = at {
                        let ghost (q0, in0) = (queue@, incoming@);
                        let n: usize = incoming[i];
                        incoming.set(i, n - 1);
                        if n - 1 == 0 {
                            queue.push_back(i);
                            assert(queue@[q0.len() as int] == i);
                        }
                        proof {
                            assert(!flags@[i as int]);
                            assert forall|a: int, b: int|
                                0 <= a < b < queue@.len() implies #[trigger] queue@[a]
                                != #[trigger] queue@[b] by {
                                if b == q0.len() {
                                    assert(in0[q0[a] as int] == 0);
                                }
                            }
                            assert forall|a: int| 0 <= a < queue@.len() implies
                                #[trigger] queue@[a] < flags.len() && incoming@[queue@[a] as int]
                                == 0 && !flags@[queue@[a] as int] by {
                                if a < q0.len() {
                                    assert(queue@[a] == q0[a]);
                                    assert(in0[q0[a] as int] == 0);
                                }
                            }
                            assert forall|y: int|
                                0 <= y < flags.len() && #[trigger] incoming@[y] == 0 implies
                                flags@[y] || queue@.contains(y as usize) by {
                                if y != i {
                                    assert(in0[y] == 0);
                                    if q0.contains(y as usize) {
                                        let a = q0.index_of(y as usize);
                                        assert(queue@[a] == y as usize);
                                    }
                                }
                            }
                            assert forall|y: int| 0 <= y < flags.len() && #[trigger] flags@[y]
                                implies incoming@[y] == 0 by {
                                assert(in0[y] == 0);
                            }
                        }
                    }
                }
                k += 1;
            }
            proof {
                assert forall|i: int| 0 <= i < names.len() implies #[trigger] incoming@[i]
                    == pending(edges@, names@[i], done, 0, TaskId(0), len) by {
                    pending_done(edges@, names@[i], before, u, TaskId(0), len);
                }
            }
        }
    }
    let mut i: usize = 0;
    while i < names.len()
        invariant
            i <= names.len(),
            names.len() == flags.len(),
            names.len() == incoming.len(),
            len == edges@.len(),
            queue@.len() == 0,
            forall|id: TaskId| names@.contains(id) <==> known(nodes@, edges@, id),
            queue_fits(queue@, incoming@, flags@),
            order_fits(edges@, names@, flags@, done, order),
            forall|j: int|
                0 <= j < names.len() ==> #[trigger] incoming@[j] == pending(
                    edges@,
                    names@[j],
                    done,
                    0,
                    TaskId(0),
                    len,
                ),
            forall|j: int| 0 <= j < i ==> #[trigger] flags@[j],
        decreases names.len() - i,
    {
        if !flags[i] {
            proof {
                assert forall|x: TaskId|
                    known(nodes@, edges@, x) && !done.contains(x) implies exists|k: int|
                    0 <= k < edges@.len() && (#[trigger] edges@[k]).task == x && !done.contains(
                        edges@[k].upstream,
                    ) by {
                    assert(names@.contains(x));
                    let j = names@.index_of(x);
                    assert(names@[j] == x);
                    assert(!flags@[j]);
                    assert(!queue@.contains(j as usize));
                    assert(incoming@[j] != 0);
                    pending_zero(edges@, x, done, TaskId(0), len);
                }
                assert(names@.contains(names@[i as int]));
                assert(!done.contains(names@[i as int]));
                stuck_is_unorderable(nodes@, edges@, done, names@[i as int]);
            }
            return Err(refuse(ErrorCategory::InvalidInput, "Task dependencies contain a cycle"));
        }
        i += 1;
    }
    proof {
        assert forall|id: TaskId| known(nodes@, edges@, id) implies order.contains(id) by {
            assert(names@.contains(id));
            let j = names@.index_of(id);
            assert(flags@[j]);
            assert(done.contains(id));
        }
        assert forall|id: TaskId| order.contains(id) implies known(nodes@, edges@, id) by {
            assert(names@.contains(id));
        }
        order_gives_rank(nodes@, edges@, order);
    }
    Ok(())
}

} // verus!

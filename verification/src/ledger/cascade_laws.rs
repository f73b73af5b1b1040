//! What a cascade changes, and what it leaves behind.
use vstd::prelude::*;

use crate::contract::{DependencyFailurePolicy, TaskSchedulingState, TaskState};
use crate::identity::TaskId;
use crate::ledger::cascade::{
    cascade, cascade_run, queued, void_all, void_edge, void_edges, void_edges_shrinks, voidable,
    work_left,
};
use crate::ledger::dependencies::unsatisfied;
use crate::ledger::{complete_watches_upto, is_task, Model};
use crate::rows::{DependencyRow, TaskRow};
use crate::select::{first_says, first_where};

verus! {

/// No two Tasks share an identity.
pub open spec fn unique_tasks(m: Model) -> bool {
    forall|i: int, j: int|
        0 <= i < j < m.tasks.len() ==> (#[trigger] m.tasks[i]).id != (#[trigger] m.tasks[j]).id
}

/// A Task that the cascade cancelled.
pub open spec fn cancelled_by(before: TaskRow, after: TaskRow) -> bool {
    before.state == TaskState::Queued && after.state == TaskState::Cancelled
}

/// What a cascade may do to one Task: nothing, cancel it while queued, or block it while queued
/// and ready.
pub open spec fn evolves(before: TaskRow, after: TaskRow) -> bool {
    ||| after == before
    ||| before.state == TaskState::Queued && after == TaskRow {
        state: TaskState::Cancelled,
        scheduling: TaskSchedulingState::Blocked,
        ..before
    }
    ||| before.state == TaskState::Queued && before.scheduling == TaskSchedulingState::Ready
        && after == TaskRow { scheduling: TaskSchedulingState::Blocked, ..before }
}

/// The Task of a void edge no longer waits in the queue, or is at least blocked there.
pub open spec fn heeded(d: DependencyRow, t: TaskRow) -> bool {
    t.id == d.task ==> (if d.policy == DependencyFailurePolicy::Cancel {
        t.state != TaskState::Queued
    } else {
        !(t.state == TaskState::Queued && t.scheduling == TaskSchedulingState::Ready)
    })
}

/// Everything that waits through edge `k` has taken notice.
pub open spec fn void(m0: Model, m: Model, k: int) -> bool {
    &&& m.dependencies[k].satisfied is None
    &&& forall|i: int| 0 <= i < m.tasks.len() ==> heeded(m0.dependencies[k], #[trigger] m.tasks[i])
}

/// A Task is in the wake of the failure: it is the failed one or was cancelled by the cascade.
pub open spec fn in_wake(m0: Model, m: Model, failed: TaskId, id: TaskId) -> bool {
    id == failed || exists|i: int|
        0 <= i < m.tasks.len() && (#[trigger] m.tasks[i]).id == id && cancelled_by(
            m0.tasks[i],
            m.tasks[i],
        )
}

spec fn tables_evolve(m0: Model, m: Model) -> bool {
    &&& m.tasks.len() == m0.tasks.len()
    &&& forall|i: int| 0 <= i < m.tasks.len() ==> evolves(m0.tasks[i], #[trigger] m.tasks[i])
    &&& m.dependencies.len() == m0.dependencies.len()
}

spec fn edge_evolves(m0: Model, m: Model, done: Set<TaskId>, k: int) -> bool {
    ||| m.dependencies[k] == m0.dependencies[k]
    ||| !m0.dependencies[k].bound && done.contains(m0.dependencies[k].upstream)
        && m.dependencies[k] == unsatisfied(m0.dependencies[k])
}

spec fn has_cause(m0: Model, done: Set<TaskId>, id: TaskId) -> bool {
    exists|k: int|
        0 <= k < m0.dependencies.len() && (#[trigger] m0.dependencies[k]).task == id
            && !m0.dependencies[k].bound && m0.dependencies[k].policy
            == DependencyFailurePolicy::Cancel && done.contains(m0.dependencies[k].upstream)
}

/// State of a cascade while edge `n` of Task `u` is next and `done` holds every Task begun.
spec fn midway(
    m0: Model,
    m: Model,
    q: Seq<TaskId>,
    done: Set<TaskId>,
    failed: TaskId,
    finished: Set<TaskId>,
    u: TaskId,
    n: nat,
) -> bool {
    &&& tables_evolve(m0, m)
    &&& forall|k: int| 0 <= k < m.dependencies.len() ==> #[trigger] edge_evolves(m0, m, done, k)
    &&& forall|k: int|
        0 <= k < m.dependencies.len() && !(#[trigger] m0.dependencies[k]).bound && (
        finished.contains(m0.dependencies[k].upstream) || m0.dependencies[k].upstream == u && k
            < n) ==> void(m0, m, k)
    &&& forall|id: TaskId|
        #[trigger] done.contains(id) || q.contains(id) <==> in_wake(m0, m, failed, id)
    &&& forall|i: int|
        0 <= i < m.tasks.len() && cancelled_by(m0.tasks[i], #[trigger] m.tasks[i]) ==> has_cause(
            m0,
            done,
            m.tasks[i].id,
        )
}

proof fn midway_step(
    m0: Model,
    m: Model,
    q: Seq<TaskId>,
    done: Set<TaskId>,
    failed: TaskId,
    finished: Set<TaskId>,
    u: TaskId,
    n: nat,
)
    requires
        unique_tasks(m0),
        n < m.dependencies.len(),
        done.contains(u),
        midway(m0, m, q, done, failed, finished, u, n),
    ensures
        ({
            let (m2, q2) = void_edge(m, q, u, n as int);
            midway(m0, m2, q2, done, failed, finished, u, (n + 1) as nat)
        }),
{
    let k0 = n as int;
    let d = m.dependencies[k0];
    let d0 = m0.dependencies[k0];
    assert(edge_evolves(m0, m, done, k0));
    let (m2, q2) = void_edge(m, q, u, k0);
    assert forall|id: TaskId| done.contains(id) || q.contains(id) implies #[trigger] in_wake(
        m0,
        m,
        failed,
        id,
    ) by {
        assert(done.contains(id) || !done.contains(id));
    }
    assert forall|id: TaskId| #[trigger] in_wake(m0, m, failed, id) implies done.contains(id)
        || q.contains(id) by {
        assert(done.contains(id) || !done.contains(id));
    }
    first_says(m.tasks, is_task(d.task));
    assert forall|i: int| 0 <= i < m2.tasks.len() implies evolves(
        m0.tasks[i],
        #[trigger] m2.tasks[i],
    ) by {
        assert(evolves(m0.tasks[i], m.tasks[i]));
    }
    assert forall|k: int| 0 <= k < m2.dependencies.len() implies #[trigger] edge_evolves(
        m0,
        m2,
        done,
        k,
    ) by {
        assert(edge_evolves(m0, m, done, k));
    }
    assert forall|i: int, j: int|
        0 <= i < m.tasks.len() && 0 <= j < m.tasks.len() && i != j implies (
    #[trigger] m.tasks[i]).id != (#[trigger] m.tasks[j]).id by {
        assert(evolves(m0.tasks[i], m.tasks[i]));
        assert(evolves(m0.tasks[j], m.tasks[j]));
    }
    assert forall|k: int|
        0 <= k < m2.dependencies.len() && !(#[trigger] m0.dependencies[k]).bound && (
        finished.contains(m0.dependencies[k].upstream) || m0.dependencies[k].upstream == u && k < n
            + 1) implies void(m0, m2, k) by {
        assert forall|i: int| 0 <= i < m2.tasks.len() implies heeded(
            m0.dependencies[k],
            #[trigger] m2.tasks[i],
        ) by {
            assert(evolves(m0.tasks[i], m.tasks[i]));
            if k == k0 && voidable(d, u) {
                let found = first_where(m.tasks, is_task(d.task));
                if m2.tasks[i].id == d.task {
                    assert(is_task(d.task)(m.tasks[i]));
                    assert(found is Some);
                    assert(found == Some(i));
                }
            } else {
                assert(void(m0, m, k));
                assert(heeded(m0.dependencies[k], m.tasks[i]));
            }
        }
        if !(k == k0 && voidable(d, u)) {
            assert(void(m0, m, k));
        }
    }
    // the queue and the cancelled Tasks
    if voidable(d, u) && d.policy == DependencyFailurePolicy::Cancel && queued(m, d.task) {
        let i0 = first_where(m.tasks, is_task(d.task))->0;
        assert(m2.tasks[i0].state == TaskState::Cancelled);
        assert(evolves(m0.tasks[i0], m.tasks[i0]));
        assert(cancelled_by(m0.tasks[i0], m2.tasks[i0]));
        assert forall|id: TaskId|
            #[trigger] done.contains(id) || q2.contains(id) <==> in_wake(m0, m2, failed, id) by {
            assert(done.contains(id) || q.contains(id) <==> in_wake(m0, m, failed, id));
            if q2.contains(id) && !q.contains(id) {
                assert(id == d.task);
                assert(m2.tasks[i0].id == id);
            }
            if q.contains(id) {
                let j = q.index_of(id);
                assert(q2[j] == id);
            }
            if id == d.task {
                assert(q2[q.len() as int] == id);
            }
            if in_wake(m0, m, failed, id) && id != failed {
                let i = choose|i: int|
                    0 <= i < m.tasks.len() && (#[trigger] m.tasks[i]).id == id && cancelled_by(
                        m0.tasks[i],
                        m.tasks[i],
                    );
                assert(m2.tasks[i].id == id && cancelled_by(m0.tasks[i], m2.tasks[i]));
            }
            if in_wake(m0, m2, failed, id) && id != failed {
                let i = choose|i: int|
                    0 <= i < m2.tasks.len() && (#[trigger] m2.tasks[i]).id == id && cancelled_by(
                        m0.tasks[i],
                        m2.tasks[i],
                    );
                if i != i0 {
                    assert(m.tasks[i].id == id && cancelled_by(m0.tasks[i], m.tasks[i]));
                }
            }
        }
        assert forall|i: int|
            0 <= i < m2.tasks.len() && cancelled_by(
                m0.tasks[i],
                #[trigger] m2.tasks[i],
            ) implies has_cause(m0, done, m2.tasks[i].id) by {
            if i == i0 {
                assert(m0.dependencies[k0].task == m2.tasks[i].id);
            } else {
                assert(cancelled_by(m0.tasks[i], m.tasks[i]));
            }
        }
    } else {
        assert(q2 == q);
        assert forall|i: int| 0 <= i < m.tasks.len() implies cancelled_by(
            m0.tasks[i],
            m.tasks[i],
        ) == cancelled_by(m0.tasks[i], #[trigger] m2.tasks[i]) && m2.tasks[i].id
            == m.tasks[i].id by {}
        assert forall|id: TaskId|
            #[trigger] done.contains(id) || q2.contains(id) <==> in_wake(m0, m2, failed, id) by {
            assert(done.contains(id) || q.contains(id) <==> in_wake(m0, m, failed, id));
            if in_wake(m0, m, failed, id) && id != failed {
                let i = choose|i: int|
                    0 <= i < m.tasks.len() && (#[trigger] m.tasks[i]).id == id && cancelled_by(
                        m0.tasks[i],
                        m.tasks[i],
                    );
                assert(m2.tasks[i].id == id && cancelled_by(m0.tasks[i], m2.tasks[i]));
            }
            if in_wake(m0, m2, failed, id) && id != failed {
                let i = choose|i: int|
                    0 <= i < m2.tasks.len() && (#[trigger] m2.tasks[i]).id == id && cancelled_by(
                        m0.tasks[i],
                        m2.tasks[i],
                    );
                assert(m.tasks[i].id == id && cancelled_by(m0.tasks[i], m.tasks[i]));
            }
        }
        assert forall|i: int|
            0 <= i < m2.tasks.len() && cancelled_by(
                m0.tasks[i],
                #[trigger] m2.tasks[i],
            ) implies has_cause(m0, done, m2.tasks[i].id) by {
            assert(cancelled_by(m0.tasks[i], m.tasks[i]));
        }
    }
}

proof fn midway_edges(
    m0: Model,
    m: Model,
    q: Seq<TaskId>,
    done: Set<TaskId>,
    failed: TaskId,
    finished: Set<TaskId>,
    u: TaskId,
    n: nat,
)
    requires
        unique_tasks(m0),
        n <= m.dependencies.len(),
        done.contains(u),
        midway(m0, m, q, done, failed, finished, u, 0),
    ensures
        ({
            let (m2, q2) = void_edges(m, q, u, n);
            midway(m0, m2, q2, done, failed, finished, u, n)
        }),
    decreases n,
{
    if n > 0 {
        midway_edges(m0, m, q, done, failed, finished, u, (n - 1) as nat);
        void_edges_shrinks(m, q, u, (n - 1) as nat);
        let (before, waiting) = void_edges(m, q, u, (n - 1) as nat);
        midway_step(m0, before, waiting, done, failed, finished, u, (n - 1) as nat);
    }
}

proof fn midway_run(
    m0: Model,
    m: Model,
    q: Seq<TaskId>,
    done: Set<TaskId>,
    failed: TaskId,
)
    requires
        unique_tasks(m0),
        midway(m0, m, q, done, failed, done, failed, 0),
    ensures
        exists|end: Set<TaskId>|
            midway(m0, cascade_run(m, q), Seq::empty(), end, failed, end, failed, 0),
    decreases work_left(m, q),
{
    if q.len() == 0 {
        assert(q =~= Seq::<TaskId>::empty());
        assert(midway(m0, cascade_run(m, q), Seq::empty(), done, failed, done, failed, 0));
    } else {
        let u = q[0];
        let rest = q.drop_first();
        let begun = done.insert(u);
        assert(midway(m0, m, rest, begun, failed, done, u, 0)) by {
            assert forall|k: int| 0 <= k < m.dependencies.len() implies #[trigger] edge_evolves(
                m0,
                m,
                begun,
                k,
            ) by {
                assert(edge_evolves(m0, m, done, k));
            }
            assert forall|id: TaskId|
                #[trigger] begun.contains(id) || rest.contains(id) <==> in_wake(
                    m0,
                    m,
                    failed,
                    id,
                ) by {
                assert(done.contains(id) || q.contains(id) <==> in_wake(m0, m, failed, id));
                if q.contains(id) && id != u {
                    let j = q.index_of(id);
                    assert(rest[j - 1] == id);
                }
                if rest.contains(id) {
                    let j = rest.index_of(id);
                    assert(q[j + 1] == id);
                }
                assert(q[0] == u);
            }
            assert forall|i: int|
                0 <= i < m.tasks.len() && cancelled_by(
                    m0.tasks[i],
                    #[trigger] m.tasks[i],
                ) implies has_cause(m0, begun, m.tasks[i].id) by {
                let k = choose|k: int|
                    0 <= k < m0.dependencies.len() && (#[trigger] m0.dependencies[k]).task
                        == m.tasks[i].id && !m0.dependencies[k].bound && m0.dependencies[k].policy
                        == DependencyFailurePolicy::Cancel && done.contains(
                        m0.dependencies[k].upstream,
                    );
                assert(m0.dependencies[k].task == m.tasks[i].id);
            }
        }
        midway_edges(m0, m, rest, begun, failed, done, u, m.dependencies.len());
        void_edges_shrinks(m, rest, u, m.dependencies.len());
        let (next, waiting) = void_all(m, rest, u);
        assert(midway(m0, next, waiting, begun, failed, begun, failed, 0)) by {
            assert forall|k: int|
                0 <= k < next.dependencies.len() && !(#[trigger] m0.dependencies[k]).bound
                    && begun.contains(m0.dependencies[k].upstream) implies void(m0, next, k) by {}
        }
        midway_run(m0, next, waiting, begun, failed);
        assert(cascade_run(m, q) == cascade_run(next, waiting));
        let end = choose|end: Set<TaskId>|
            midway(m0, cascade_run(next, waiting), Seq::empty(), end, failed, end, failed, 0);
        assert(midway(m0, cascade_run(m, q), Seq::empty(), end, failed, end, failed, 0));
    }
}

proof fn completing_keeps(m: Model, n: nat)
    requires
        n <= m.watches.len(),
    ensures
        complete_watches_upto(m, n).tasks == m.tasks,
        complete_watches_upto(m, n).dependencies == m.dependencies,
    decreases n,
{
    if n > 0 {
        completing_keeps(m, (n - 1) as nat);
    }
}

/// A failure cascades exactly along unbound edges. Every Task keeps everything but its state and
/// scheduling; a Task that was not queued keeps those too. Every unbound edge out of the failed
/// Task, or out of a Task that the cascade cancelled, is unsatisfied afterwards, and the Task
/// behind it is cancelled or blocked as the edge's policy says. Bound edges and the edges of other
/// upstream Tasks are untouched, and no Task is cancelled without an unbound cancelling edge to a
/// Task in the wake.
pub proof fn cascade_reaches_exactly_the_wake(m: Model, failed: TaskId)
    requires
        unique_tasks(m),
    ensures
        ({
            let after = cascade(m, failed);
            &&& after.tasks.len() == m.tasks.len()
            &&& after.dependencies.len() == m.dependencies.len()
            &&& forall|i: int|
                0 <= i < m.tasks.len() ==> evolves(m.tasks[i], #[trigger] after.tasks[i])
            &&& forall|k: int|
                #![trigger m.dependencies[k]]
                0 <= k < m.dependencies.len() && !m.dependencies[k].bound && in_wake(
                    m,
                    after,
                    failed,
                    m.dependencies[k].upstream,
                ) ==> void(m, after, k)
            &&& forall|k: int|
                #![trigger after.dependencies[k]]
                0 <= k < m.dependencies.len() && (m.dependencies[k].bound || !in_wake(
                    m,
                    after,
                    failed,
                    m.dependencies[k].upstream,
                )) ==> after.dependencies[k] == m.dependencies[k]
            &&& forall|i: int|
                #![trigger after.tasks[i]]
                0 <= i < m.tasks.len() && cancelled_by(m.tasks[i], after.tasks[i])
                    ==> exists|k: int|
                    0 <= k < m.dependencies.len() && (#[trigger] m.dependencies[k]).task
                        == m.tasks[i].id && !m.dependencies[k].bound && m.dependencies[k].policy
                        == DependencyFailurePolicy::Cancel && in_wake(
                        m,
                        after,
                        failed,
                        m.dependencies[k].upstream,
                    )
        }),
{
    let start = seq![failed];
    let run = cascade_run(m, start);
    let none = Set::<TaskId>::empty();
    assert(midway(m, m, start, none, failed, none, failed, 0)) by {
        assert forall|id: TaskId|
            #[trigger] none.contains(id) || start.contains(id) <==> in_wake(m, m, failed, id) by {
            assert(start[0] == failed);
        }
        assert forall|k: int| 0 <= k < m.dependencies.len() implies #[trigger] edge_evolves(
            m,
            m,
            none,
            k,
        ) by {}
    }
    midway_run(m, m, start, none, failed);
    let end = choose|end: Set<TaskId>|
        midway(m, run, Seq::empty(), end, failed, end, failed, 0);
    completing_keeps(run, run.watches.len());
    let after = cascade(m, failed);
    assert(after.tasks == run.tasks && after.dependencies == run.dependencies);
    assert forall|id: TaskId| #[trigger] end.contains(id) <==> in_wake(m, after, failed, id) by {
        assert(end.contains(id) || Seq::<TaskId>::empty().contains(id) <==> in_wake(
            m,
            run,
            failed,
            id,
        ));
        if in_wake(m, run, failed, id) && id != failed {
            let i = choose|i: int|
                0 <= i < run.tasks.len() && (#[trigger] run.tasks[i]).id == id && cancelled_by(
                    m.tasks[i],
                    run.tasks[i],
                );
            assert(after.tasks[i].id == id);
        }
        if in_wake(m, after, failed, id) && id != failed {
            let i = choose|i: int|
                0 <= i < after.tasks.len() && (#[trigger] after.tasks[i]).id == id && cancelled_by(
                    m.tasks[i],
                    after.tasks[i],
                );
            assert(run.tasks[i].id == id);
        }
    }
    assert forall|k: int|
        #![trigger m.dependencies[k]]
        0 <= k < m.dependencies.len() && !m.dependencies[k].bound && in_wake(
            m,
            after,
            failed,
            m.dependencies[k].upstream,
        ) implies void(m, after, k) by {
        assert(end.contains(m.dependencies[k].upstream));
        assert(void(m, run, k));
        assert forall|i: int| 0 <= i < after.tasks.len() implies heeded(
            m.dependencies[k],
            #[trigger] after.tasks[i],
        ) by {
            assert(heeded(m.dependencies[k], run.tasks[i]));
        }
    }
    assert forall|k: int|
        #![trigger after.dependencies[k]]
        0 <= k < m.dependencies.len() && (m.dependencies[k].bound || !in_wake(
            m,
            after,
            failed,
            m.dependencies[k].upstream,
        )) implies after.dependencies[k] == m.dependencies[k] by {
        assert(edge_evolves(m, run, end, k));
        assert(end.contains(m.dependencies[k].upstream) <==> in_wake(
            m,
            after,
            failed,
            m.dependencies[k].upstream,
        ));
    }
    assert forall|i: int|
        #![trigger after.tasks[i]]
        0 <= i < m.tasks.len() && cancelled_by(m.tasks[i], after.tasks[i]) implies exists|k: int|
        0 <= k < m.dependencies.len() && (#[trigger] m.dependencies[k]).task == m.tasks[i].id
            && !m.dependencies[k].bound && m.dependencies[k].policy
            == DependencyFailurePolicy::Cancel && in_wake(
            m,
            after,
            failed,
            m.dependencies[k].upstream,
        ) by {
        assert(cancelled_by(m.tasks[i], run.tasks[i]));
        assert(evolves(m.tasks[i], run.tasks[i]));
        assert(has_cause(m, end, run.tasks[i].id));
        let k = choose|k: int|
            0 <= k < m.dependencies.len() && (#[trigger] m.dependencies[k]).task == run.tasks[i].id
                && !m.dependencies[k].bound && m.dependencies[k].policy
                == DependencyFailurePolicy::Cancel && end.contains(m.dependencies[k].upstream);
        assert(m.dependencies[k].task == m.tasks[i].id);
    }
}

} // verus!

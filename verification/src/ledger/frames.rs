//! Which tables the shared steps touch.
use vstd::prelude::*;

use crate::contract::{SupervisorEventKind, TaskState};
use crate::identity::{MessageId, SupervisorEventId, TaskId};
use crate::ledger::attention::acknowledge_upto;
use crate::ledger::cascade::{
    cascade, cascade_run, void_all, void_edge, void_edges, void_edges_shrinks, work_left,
};
use crate::ledger::cascade_laws::evolves;
use crate::ledger::dependencies::unsatisfied;
use crate::ledger::queries::mark_read_upto;
use crate::ledger::steps::{process_events_upto, transition};
use crate::ledger::{complete_watches_frame, is_task, record_transition_frame, Model};
use crate::rows::{AuthenticatedActor, HarnessKey, TaskRow, TransitionReason};
use crate::select::{first_says, first_where};

verus! {

/// Settling events touches events and read marks only.
pub proof fn process_events_frame(
    m: Model,
    kind: SupervisorEventKind,
    task: TaskId,
    revision: Option<u32>,
    n: nat,
)
    ensures
        ({
            let after = process_events_upto(m, kind, task, revision, n);
            after == (Model { events: after.events, reads: after.reads, ..m })
        }),
    decreases n,
{
    if n > 0 {
        process_events_frame(m, kind, task, revision, (n - 1) as nat);
    }
}

/// Acknowledging events touches events and read marks only.
pub proof fn acknowledge_frame(
    m: Model,
    actor: AuthenticatedActor,
    ids: Seq<SupervisorEventId>,
    n: nat,
)
    ensures
        ({
            let after = acknowledge_upto(m, actor, ids, n);
            after == (Model { events: after.events, reads: after.reads, ..m })
        }),
    decreases n,
{
    if n > 0 {
        acknowledge_frame(m, actor, ids, (n - 1) as nat);
    }
}

/// Reading an inbox touches read marks only.
pub proof fn mark_read_frame(m: Model, harness: HarnessKey, ids: Seq<MessageId>, n: nat)
    ensures
        ({
            let after = mark_read_upto(m, harness, ids, n).0;
            after == (Model { reads: after.reads, ..m })
        }),
    decreases n,
{
    if n > 0 {
        mark_read_frame(m, harness, ids, (n - 1) as nat);
    }
}

/// What a transition touches: one Task, the log, watches and events.
pub proof fn transition_frame(m: Model, id: TaskId, from: TaskState, to: TaskState, bump: bool)
    requires
        transition(m, id, from, to, bump) is Ok,
    ensures
        ({
            let i = first_where(m.tasks, is_task(id))->0;
            let t = m.tasks[i];
            let after = transition(m, id, from, to, bump)->Ok_0;
            &&& 0 <= i < m.tasks.len()
            &&& t.id == id
            &&& t.state == from
            &&& after == (Model {
                tasks: m.tasks.update(
                    i,
                    TaskRow {
                        state: to,
                        revision: if bump {
                            (t.revision + 1) as u32
                        } else {
                            t.revision
                        },
                        ..t
                    },
                ),
                transitions: after.transitions,
                watches: after.watches,
                events: after.events,
                ..m
            })
        }),
{
    first_says(m.tasks, is_task(id));
    let i = first_where(m.tasks, is_task(id))->0;
    let t = m.tasks[i];
    let row = TaskRow {
        state: to,
        revision: if bump {
            (t.revision + 1) as u32
        } else {
            t.revision
        },
        ..t
    };
    record_transition_frame(
        Model { tasks: m.tasks.update(i, row), ..m },
        id,
        from,
        to,
        TransitionReason::Plain,
    );
}

/// Every Task stays or leaves the queue as a cascade may have it.
pub open spec fn wanes(a: Model, b: Model) -> bool {
    &&& a.tasks.len() == b.tasks.len()
    &&& forall|i: int| 0 <= i < a.tasks.len() ==> evolves(#[trigger] a.tasks[i], b.tasks[i])
}

/// Every edge stays, or is unbound and loses what satisfied it.
pub open spec fn fades(a: Model, b: Model) -> bool {
    &&& a.dependencies.len() == b.dependencies.len()
    &&& forall|k: int|
        0 <= k < a.dependencies.len() ==> #[trigger] b.dependencies[k] == a.dependencies[k] || (
        !a.dependencies[k].bound && b.dependencies[k] == unsatisfied(a.dependencies[k]))
}

/// The tables that a cascade touches.
pub open spec fn cascade_scope(a: Model, b: Model) -> bool {
    b == (Model {
        tasks: b.tasks,
        dependencies: b.dependencies,
        transitions: b.transitions,
        scheduling: b.scheduling,
        watches: b.watches,
        events: b.events,
        ..a
    })
}

proof fn void_edge_frame(m: Model, q: Seq<TaskId>, u: TaskId, k: int)
    requires
        0 <= k < m.dependencies.len(),
    ensures
        cascade_scope(m, void_edge(m, q, u, k).0),
        wanes(m, void_edge(m, q, u, k).0),
        fades(m, void_edge(m, q, u, k).0),
{
    first_says(m.tasks, is_task(m.dependencies[k].task));
}

proof fn void_edges_frame(m: Model, q: Seq<TaskId>, u: TaskId, n: nat)
    requires
        n <= m.dependencies.len(),
    ensures
        cascade_scope(m, void_edges(m, q, u, n).0),
        wanes(m, void_edges(m, q, u, n).0),
        fades(m, void_edges(m, q, u, n).0),
    decreases n,
{
    if n > 0 {
        void_edges_frame(m, q, u, (n - 1) as nat);
        let (before, waiting) = void_edges(m, q, u, (n - 1) as nat);
        void_edge_frame(before, waiting, u, n - 1);
        let after = void_edges(m, q, u, n).0;
        assert forall|i: int| 0 <= i < m.tasks.len() implies evolves(
            #[trigger] m.tasks[i],
            after.tasks[i],
        ) by {
            assert(evolves(m.tasks[i], before.tasks[i]));
            assert(evolves(before.tasks[i], after.tasks[i]));
        }
        assert forall|k: int| 0 <= k < m.dependencies.len() implies (#[trigger] after.dependencies[k]
            == m.dependencies[k] || (!m.dependencies[k].bound && after.dependencies[k]
            == unsatisfied(m.dependencies[k]))) by {
            assert(before.dependencies[k] == m.dependencies[k] || before.dependencies[k]
                == unsatisfied(m.dependencies[k]));
        }
    }
}

proof fn cascade_run_frame(m: Model, q: Seq<TaskId>)
    ensures
        cascade_scope(m, cascade_run(m, q)),
        wanes(m, cascade_run(m, q)),
        fades(m, cascade_run(m, q)),
    decreases work_left(m, q),
{
    if q.len() > 0 {
        void_edges_shrinks(m, q.drop_first(), q[0], m.dependencies.len());
        void_edges_frame(m, q.drop_first(), q[0], m.dependencies.len());
        let (next, waiting) = void_all(m, q.drop_first(), q[0]);
        cascade_run_frame(next, waiting);
        let after = cascade_run(m, q);
        assert forall|i: int| 0 <= i < m.tasks.len() implies evolves(
            #[trigger] m.tasks[i],
            after.tasks[i],
        ) by {
            assert(evolves(m.tasks[i], next.tasks[i]));
            assert(evolves(next.tasks[i], after.tasks[i]));
        }
        assert forall|k: int| 0 <= k < m.dependencies.len() implies (#[trigger] after.dependencies[k]
            == m.dependencies[k] || (!m.dependencies[k].bound && after.dependencies[k]
            == unsatisfied(m.dependencies[k]))) by {
            assert(next.dependencies[k] == m.dependencies[k] || next.dependencies[k]
                == unsatisfied(m.dependencies[k]));
        }
    }
}

/// A cascade touches queued Tasks, unbound edges and the logs only.
pub proof fn cascade_frame(m: Model, failed: TaskId)
    ensures
        cascade_scope(m, cascade(m, failed)),
        wanes(m, cascade(m, failed)),
        fades(m, cascade(m, failed)),
{
    cascade_run_frame(m, seq![failed]);
    let run = cascade_run(m, seq![failed]);
    complete_watches_frame(run, run.watches.len());
}

} // verus!

//! Queries: what an authenticated actor may see, and what it is shown.
use vstd::prelude::*;

use crate::capability::{stored_form, ActorContext};
use crate::error::{outcome, refusal, refuse, CoordinatorError, ErrorCategory, Refusal};
use crate::graph::ordered_by;
use crate::identity::{AttachmentId, TaskId};
use crate::ledger::create::{acyclic, find_attachment, task_ids};
use crate::ledger::event_laws::{one_in_flight, origins_differ};
use crate::ledger::execute::{
    host_caller, require_supervisor, session_caller, supervisor_required, Caller,
};
use crate::ledger::guards::{frozen, frozen_edge, guarded};
use crate::ledger::queries::{
    event_status, gives_inputs, graph_row, harness_status, inbox, input_refusal, is_bound_edge_of,
    is_overwhelmed, session_self, task_status, EventStatusRow, GraphRow, HarnessStatusRow,
    InboxRow, TaskStatusRow,
};
use crate::ledger::reap_laws::unique_connections;
use crate::ledger::shutdown::is_active_hold;
use crate::ledger::steps::revision_overflow;
use crate::ledger::{find_task, Ledger, Model};
use crate::ledger::evidence::no_such_task;
use crate::names::{distinct, number_of, NameTable};
use crate::rows::{
    AttachmentRow, AuthenticatedActor, HarnessKey, HarnessRow, HoldRow, SessionRow, TaskRow,
    TextKey,
};
use crate::select::{keep_where, some_where};
use crate::contract::HarnessTier;
use crate::views::ResolvedTaskInputView;

verus! {

/// Read operations.
#[derive(Debug, Clone, Copy, PartialEq, Eq, Structural)]
#[allow(inconsistent_fields)]
pub enum CoordinatorQuery {
    /// Durable Harness identities in creation order.
    ListHarnesses,
    /// One Task projection.
    GetTask { task_id: TaskId },
    /// All Tasks in durable FIFO order.
    ListTasks,
    /// Dependency, readiness, and admission details for all Tasks.
    TaskGraph,
    /// Unread Messages addressed to the authenticated Harness.
    Inbox,
    /// One row per durable Harness for popup presentation.
    HarnessStatus,
    /// Unresolved Worktree Holds, for the Supervisor only.
    ActiveHolds,
    /// Launch context for the authenticated Harness Host.
    SessionSelf,
    /// Immutable Attachment metadata for authorized local delivery.
    GetAttachment { attachment_id: AttachmentId },
    /// Explicit and frozen dependency inputs for one Task delivery.
    ResolvedTaskInput { task_id: TaskId },
    /// Durable Supervisor events ordered by attention FIFO.
    SupervisorEvents,
}

/// What a query shows, by rows.
#[derive(Debug)]
pub enum QueryRows {
    Harnesses(Vec<HarnessKey>),
    Task(TaskStatusRow),
    Tasks(Vec<TaskStatusRow>),
    TaskGraph(Vec<GraphRow>),
    Inbox(Vec<InboxRow>),
    HarnessStatus(Vec<HarnessStatusRow>),
    Holds(Vec<HoldRow>),
    SessionSelf(SessionRow, TextKey),
    Attachment(AttachmentRow),
    ResolvedTaskInput(ResolvedTaskInputView),
    SupervisorEvents(Vec<EventStatusRow>),
}

/// Who a capability stands for, by the table of stored capabilities.
pub open spec fn caller_of(actor: ActorContext, stored: Seq<Seq<char>>) -> Caller {
    match actor {
        ActorContext::Bootstrap => Caller::Bootstrap,
        ActorContext::Session { capability } => Caller::Session {
            capability: number_of(stored, stored_form(capability@)),
        },
        ActorContext::Host { capability } => Caller::Host {
            capability: number_of(stored, stored_form(capability@)),
        },
    }
}

/// Finds the stored form of a capability.
pub fn find_caller(actor: &ActorContext, stored: &NameTable) -> (r: Caller)
    requires
        distinct(stored@),
    ensures
        r == caller_of(*actor, stored@),
{
    match actor {
        ActorContext::Bootstrap => Caller::Bootstrap,
        ActorContext::Session { capability } => {
            let digest = capability.digest();
            Caller::Session { capability: stored.find(digest.as_str()) }
        },
        ActorContext::Host { capability } => {
            let digest = capability.digest();
            Caller::Host { capability: stored.find(digest.as_str()) }
        },
    }
}

/// Who asks a query.
pub open spec fn asker(m: Model, caller: Caller, now: u64) -> Result<AuthenticatedActor, Refusal> {
    match caller {
        Caller::Session { capability } => session_caller(m, capability),
        Caller::Host { capability } => host_caller(m, capability, now),
        Caller::Bootstrap => Err(
            refusal(
                ErrorCategory::Unauthenticated,
                "a live Session or Host capability is required"@,
            ),
        ),
    }
}

/// Queries that only the Supervisor may ask.
pub open spec fn for_supervisor(query: CoordinatorQuery) -> bool {
    query is TaskGraph || query is ActiveHolds || query is SupervisorEvents
}

/// Why an actor is not answered.
pub open spec fn query_refusal(m: Model, actor: AuthenticatedActor, query: CoordinatorQuery) -> Option<
    Refusal,
> {
    if for_supervisor(query) && actor.tier != HarnessTier::Supervisor {
        Some(supervisor_required())
    } else {
        match query {
            CoordinatorQuery::GetTask { task_id } => if find_task(m, task_id) is None {
                Some(no_such_task())
            } else {
                None
            },
            CoordinatorQuery::HarnessStatus => if some_where(m.harnesses, is_overwhelmed(m)) {
                Some(revision_overflow())
            } else {
                None
            },
            CoordinatorQuery::SessionSelf => match session_self(m, actor) {
                Ok(_) => None,
                Err(e) => Some(e),
            },
            CoordinatorQuery::GetAttachment { attachment_id } => if find_attachment(
                m,
                attachment_id,
            ) is Some {
                None
            } else {
                Some(refusal(ErrorCategory::NotFound, "Attachment does not exist"@))
            },
            CoordinatorQuery::ResolvedTaskInput { task_id } => input_refusal(m, actor, task_id),
            _ => None,
        }
    }
}

/// What an actor is shown.
pub open spec fn answers(
    m: Model,
    actor: AuthenticatedActor,
    query: CoordinatorQuery,
    rows: QueryRows,
) -> bool {
    match (query, rows) {
        (CoordinatorQuery::ListHarnesses, QueryRows::Harnesses(r)) => r@ == m.harnesses.map_values(
            |h: HarnessRow| h.key,
        ),
        (CoordinatorQuery::GetTask { task_id }, QueryRows::Task(r)) => r == task_status(
            m,
            find_task(m, task_id)->0,
        ),
        (CoordinatorQuery::ListTasks, QueryRows::Tasks(r)) => r@ == m.tasks.map_values(
            |t: TaskRow| task_status(m, t),
        ),
        (CoordinatorQuery::TaskGraph, QueryRows::TaskGraph(r)) => r@.len() == m.tasks.len() && (
        forall|i: int| 0 <= i < r@.len() ==> graph_row(m, i, #[trigger] r@[i])),
        (CoordinatorQuery::Inbox, QueryRows::Inbox(r)) => r@ == inbox(m, actor.id),
        (CoordinatorQuery::HarnessStatus, QueryRows::HarnessStatus(r)) => r@
            == m.harnesses.map_values(|h: HarnessRow| harness_status(m, h)),
        (CoordinatorQuery::ActiveHolds, QueryRows::Holds(r)) => r@ == keep_where(
            m.holds,
            is_active_hold(),
        ),
        (CoordinatorQuery::SessionSelf, QueryRows::SessionSelf(s, d)) => session_self(m, actor)
            == Ok::<(SessionRow, TextKey), Refusal>((s, d)),
        (
            CoordinatorQuery::GetAttachment { attachment_id },
            QueryRows::Attachment(row),
        ) => find_attachment(m, attachment_id) == Some(row),
        (
            CoordinatorQuery::ResolvedTaskInput { task_id },
            QueryRows::ResolvedTaskInput(r),
        ) => gives_inputs(m, task_id, r),
        (CoordinatorQuery::SupervisorEvents, QueryRows::SupervisorEvents(r)) => r@.len()
            == m.events.len() && (forall|i: int|
            0 <= i < r@.len() ==> event_status(m, m.events[i], #[trigger] r@[i])),
        _ => false,
    }
}

impl Ledger {
    /// Finds out who asks a query.
    pub fn asker(&self, caller: Caller, now: u64) -> (r: Result<AuthenticatedActor, CoordinatorError>)
        ensures
            outcome(r) == asker(self@, caller, now),
    {
        match caller {
            Caller::Session { capability } => self.session_caller(capability),
            Caller::Host { capability } => self.host_caller(capability, now),
            Caller::Bootstrap => Err(
                refuse(
                    ErrorCategory::Unauthenticated,
                    "a live Session or Host capability is required",
                ),
            ),
        }
    }

    fn harness_keys(&self) -> (r: Vec<HarnessKey>)
        ensures
            r@ == self@.harnesses.map_values(|h: HarnessRow| h.key),
    {
        let mut r: Vec<HarnessKey> = Vec::new();
        let mut i: usize = 0;
        while i < self.harnesses.len()
            invariant
                i <= self.harnesses.len(),
                r@.len() == i,
                forall|j: int| 0 <= j < i ==> #[trigger] r@[j] == self@.harnesses[j].key,
            decreases self.harnesses.len() - i,
        {
            r.push(self.harnesses[i].key);
            i += 1;
        }
        assert(r@ =~= self@.harnesses.map_values(|h: HarnessRow| h.key));
        r
    }

    fn show(&self, actor: AuthenticatedActor, query: CoordinatorQuery) -> (r: Result<
        QueryRows,
        CoordinatorError,
    >)
        requires
            frozen(self@),
            for_supervisor(query) ==> actor.tier == HarnessTier::Supervisor,
        ensures
            match query_refusal(self@, actor, query) {
                Some(e) => r is Err && r->Err_0@ == e,
                None => r is Ok && answers(self@, actor, query, r->Ok_0),
            },
    {
        match query {
            CoordinatorQuery::ListHarnesses => Ok(QueryRows::Harnesses(self.harness_keys())),
            CoordinatorQuery::GetTask { task_id } => match self.get_task(task_id) {
                Ok(task) => Ok(QueryRows::Task(task)),
                Err(e) => Err(e),
            },
            CoordinatorQuery::ListTasks => Ok(QueryRows::Tasks(self.list_tasks())),
            CoordinatorQuery::TaskGraph => Ok(QueryRows::TaskGraph(self.task_graph())),
            CoordinatorQuery::Inbox => Ok(QueryRows::Inbox(self.inbox(actor.id))),
            CoordinatorQuery::HarnessStatus => match self.harness_status() {
                Ok(rows) => Ok(QueryRows::HarnessStatus(rows)),
                Err(e) => Err(e),
            },
            CoordinatorQuery::ActiveHolds => Ok(QueryRows::Holds(self.active_holds())),
            CoordinatorQuery::SessionSelf => match self.session_self(actor) {
                Ok((session, definition)) => Ok(QueryRows::SessionSelf(session, definition)),
                Err(e) => Err(e),
            },
            CoordinatorQuery::GetAttachment { attachment_id } => {
                match self.find_attachment(attachment_id) {
                    Some(row) => Ok(QueryRows::Attachment(row)),
                    None => Err(refuse(ErrorCategory::NotFound, "Attachment does not exist")),
                }
            },
            CoordinatorQuery::ResolvedTaskInput { task_id } => {
                proof {
                    assert forall|i: int|
                        0 <= i < self@.dependencies.len() && is_bound_edge_of(task_id)(
                            #[trigger] self@.dependencies[i],
                        ) implies self@.dependencies[i].satisfied is Some
                        && self@.dependencies[i].snapshot is Some by {
                        assert(frozen_edge(self@.dependencies[i]));
                    }
                }
                match self.resolved_task_input(actor, task_id) {
                    Ok(rows) => Ok(QueryRows::ResolvedTaskInput(rows)),
                    Err(e) => Err(e),
                }
            },
            CoordinatorQuery::SupervisorEvents => Ok(
                QueryRows::SupervisorEvents(self.supervisor_events()),
            ),
        }
    }

    /// Answers a query of an authenticated actor.
    pub fn query(&self, caller: Caller, query: CoordinatorQuery, now: u64) -> (r: Result<
        QueryRows,
        CoordinatorError,
    >)
        requires
            frozen(self@),
        ensures
            match asker(self@, caller, now) {
                Err(e) => r is Err && r->Err_0@ == e,
                Ok(actor) => match query_refusal(self@, actor, query) {
                    Some(e) => r is Err && r->Err_0@ == e,
                    None => r is Ok && answers(self@, actor, query, r->Ok_0),
                },
            },
    {
        let actor = match self.asker(caller, now) {
            Err(e) => {
                return Err(e);
            },
            Ok(actor) => actor,
        };
        let restricted = match query {
            CoordinatorQuery::TaskGraph
            | CoordinatorQuery::ActiveHolds
            | CoordinatorQuery::SupervisorEvents => true,
            _ => false,
        };
        if restricted {
            match require_supervisor(actor) {
                Err(e) => {
                    return Err(e);
                },
                Ok(_) => {},
            }
        }
        self.show(actor, query)
    }

    /// A Coordinator without any history.
    pub fn new() -> (r: Ledger)
        ensures
            r@ == empty_model(),
            guarded(r@),
            acyclic(r@),
            one_in_flight(r@),
            origins_differ(r@),
            unique_connections(r@),
    {
        let r = Ledger {
            harnesses: Vec::new(),
            sessions: Vec::new(),
            tasks: Vec::new(),
            dependencies: Vec::new(),
            messages: Vec::new(),
            attempts: Vec::new(),
            reads: Vec::new(),
            leases: Vec::new(),
            holds: Vec::new(),
            observations: Vec::new(),
            snapshots: Vec::new(),
            results: Vec::new(),
            events: Vec::new(),
            event_attempts: Vec::new(),
            event_observations: Vec::new(),
            watches: Vec::new(),
            watch_roots: Vec::new(),
            connections: Vec::new(),
            bindings: Vec::new(),
            transitions: Vec::new(),
            scheduling: Vec::new(),
            keyed: Vec::new(),
            host_events: Vec::new(),
            attachments: Vec::new(),
            attached: Vec::new(),
            reconciliations: Vec::new(),
        };
        proof {
            assert(ordered_by(task_ids(r@.tasks), r@.dependencies, Map::empty()));
        }
        r
    }
}

/// Tables without rows.
pub open spec fn empty_model() -> Model {
    Model {
        harnesses: Seq::empty(),
        sessions: Seq::empty(),
        tasks: Seq::empty(),
        dependencies: Seq::empty(),
        messages: Seq::empty(),
        attempts: Seq::empty(),
        reads: Seq::empty(),
        leases: Seq::empty(),
        holds: Seq::empty(),
        observations: Seq::empty(),
        snapshots: Seq::empty(),
        results: Seq::empty(),
        events: Seq::empty(),
        event_attempts: Seq::empty(),
        event_observations: Seq::empty(),
        watches: Seq::empty(),
        watch_roots: Seq::empty(),
        connections: Seq::empty(),
        bindings: Seq::empty(),
        transitions: Seq::empty(),
        scheduling: Seq::empty(),
        keyed: Seq::empty(),
        host_events: Seq::empty(),
        attachments: Seq::empty(),
        attached: Seq::empty(),
        reconciliations: Seq::empty(),
    }
}

} // verus!

//! Who may give which command and ask which query, and what watches and lost Hosts come to.
use vstd::prelude::*;

use crate::contract::{HarnessTier, ObservationCheckpoint, Presence, RepositoryAccess, TaskState};
use crate::error::{ErrorCategory, Refusal};
use crate::identity::{TaskGraphWatchId, TaskId};
use crate::ledger::{
    complete_watches_upto, is_event_from, is_task, keeps_open, occupies, record_transition,
    record_transition_frame, watch_due, Model,
};
use crate::ledger::attention::{is_missing_task, roots_of, watch_graph};
use crate::ledger::cascade::cascade;
use crate::ledger::cascade_laws::evolves;
use crate::ledger::connections::{authenticate, authenticate_host};
use crate::ledger::dispatch_laws::refuses;
use crate::ledger::evidence::{observed, NewObservation};
use crate::ledger::execute::{authorize, execute, Caller, CoordinatorCommand};
use crate::ledger::frames::cascade_frame;
use crate::ledger::hosts::drop_connection;
use crate::ledger::outcome_laws::{holding_holds, observable, observing_says};
use crate::ledger::query::{asker, query_refusal, CoordinatorQuery};
use crate::ledger::schedule_laws::{holds_are_found, on_hold, places_are_found, stands};
use crate::ledger::session_laws::{live_rows_are_found, lives, renews};
use crate::ledger::show_laws::is_busy_with;
use crate::ledger::shutdown::{fail_with_host, guard_lost_work, host_failed};
use crate::rows::{
    AuthenticatedActor, EventOrigin, TaskRow, TextKey, TransitionReason, WatchRow, Wording,
};
use crate::select::{first_found, first_missing, first_says, first_where, some_where};
use crate::text::{blank, byte_count};

verus! {

// ---------------------------------------------------------------------------------------------
// Commands
// ---------------------------------------------------------------------------------------------

/// Commands that direct the network: they create, dispatch, approve and cancel Tasks, start and
/// stop Workers, settle doubt and Holds, and take events.
pub open spec fn directs(command: CoordinatorCommand) -> bool {
    ||| command is StartWorker
    ||| command is CreateTask
    ||| command is DispatchTask
    ||| command is ApproveTask
    ||| command is CancelTask
    ||| command is ResolveDeliveryUnknown
    ||| command is ClearWorktreeHold
    ||| command is StopWorker
    ||| command is ClaimNextSupervisorEvent
    ||| command is AcceptSupervisorEvent
    ||| command is MarkSupervisorEventUnknown
    ||| command is ReleaseSupervisorEvent
    ||| command is AcknowledgeSupervisorEvents
    ||| command is ReconcileSupervisorEvent
    ||| command is WatchTaskGraph
}

/// Commands that need no capability.
pub open spec fn begins_alone(command: CoordinatorCommand) -> bool {
    ||| command is RegisterSupervisor
    ||| command is PrepareSupervisorReconnect
    ||| command is ReapStaleHostConnections
}

/// A Worker gives no command that directs the network, whichever capability it has: it is refused,
/// and nothing changes.
pub proof fn workers_do_not_direct(m: Model, caller: Caller, command: CoordinatorCommand, now: u64)
    requires
        directs(command),
        match caller {
            Caller::Bootstrap => false,
            Caller::Session { capability } => capability is Some && authenticate(
                m,
                capability->0,
            ) is Ok && authenticate(m, capability->0)->Ok_0.tier == HarnessTier::Worker,
            Caller::Host { capability } => capability is Some && authenticate_host(
                m,
                capability->0,
                now,
            ) is Ok && authenticate_host(m, capability->0, now)->Ok_0.tier == HarnessTier::Worker,
        },
    ensures
        refuses(m, execute(m, caller, command, now), ErrorCategory::Forbidden),
{
}

/// Without a capability only a Supervisor is registered, a reconnection claimed and lost Hosts
/// settled; with one, none of these.
pub proof fn beginnings_need_no_capability(
    m: Model,
    capability: Option<TextKey>,
    command: CoordinatorCommand,
    now: u64,
)
    ensures
        authorize(m, Caller::Bootstrap, command, now) is Ok == begins_alone(command),
        !begins_alone(command) ==> refuses(
            m,
            execute(m, Caller::Bootstrap, command, now),
            ErrorCategory::Forbidden,
        ),
        begins_alone(command) ==> refuses(
            m,
            execute(m, Caller::Session { capability }, command, now),
            ErrorCategory::Forbidden,
        ),
        begins_alone(command) ==> authorize(m, Caller::Host { capability }, command, now) is Err,
{
}

/// A capability that nobody has gives no command and asks no query.
pub proof fn unknown_capabilities_do_nothing(m: Model, command: CoordinatorCommand, now: u64)
    ensures
        execute(m, Caller::Session { capability: None }, command, now).0 == m,
        execute(m, Caller::Session { capability: None }, command, now).1 is Err,
        execute(m, Caller::Host { capability: None }, command, now).0 == m,
        execute(m, Caller::Host { capability: None }, command, now).1 is Err,
        asker(m, Caller::Session { capability: None }, now) is Err,
        asker(m, Caller::Host { capability: None }, now) is Err,
        asker(m, Caller::Bootstrap, now) is Err,
{
}

/// The Supervisor gives every command that directs the network, with either capability; the actor
/// is the one that the capability stands for.
pub proof fn supervisors_direct(m: Model, key: TextKey, command: CoordinatorCommand, now: u64)
    requires
        directs(command),
    ensures
        authenticate(m, key) is Ok && authenticate(m, key)->Ok_0.tier == HarnessTier::Supervisor
            ==> authorize(m, Caller::Session { capability: Some(key) }, command, now) == Ok::<
            Option<AuthenticatedActor>,
            Refusal,
        >(Some(authenticate(m, key)->Ok_0)),
        authenticate_host(m, key, now) is Ok && authenticate_host(m, key, now)->Ok_0.tier
            == HarnessTier::Supervisor ==> authorize(
            m,
            Caller::Host { capability: Some(key) },
            command,
            now,
        ) == Ok::<Option<AuthenticatedActor>, Refusal>(Some(authenticate_host(m, key, now)->Ok_0)),
{
}

/// Only a Host keeps and closes its connection and says what it presented, and only a Session binds
/// one, gives up a start and gives up the workspace.
pub proof fn hosts_and_sessions_have_their_own_commands(
    m: Model,
    capability: Option<TextKey>,
    command: CoordinatorCommand,
    now: u64,
)
    ensures
        command is RenewHostConnection || command is DisconnectHostConnection || command
            is RecordSupervisorEventPresentation ==> refuses(
            m,
            execute(m, Caller::Session { capability }, command, now),
            ErrorCategory::Forbidden,
        ),
        command is BindHostConnection || command is AbortWorkerStart || command
            is DeactivateWorkspace ==> authorize(m, Caller::Host { capability }, command, now)
            is Err,
{
}

/// Only Workers ask for work with a Session capability, and only the Supervisor gives up the
/// workspace and the start of a Worker.
pub proof fn work_is_asked_for_by_workers(m: Model, key: TextKey, command: CoordinatorCommand, now: u64)
    requires
        authenticate(m, key) is Ok,
    ensures
        ({
            let who = authenticate(m, key)->Ok_0;
            let answer = authorize(m, Caller::Session { capability: Some(key) }, command, now);
            &&& command is ClaimNextTask ==> answer is Ok == (who.tier == HarnessTier::Worker)
            &&& command is DeactivateWorkspace || command is AbortWorkerStart ==> answer is Ok == (
            who.tier == HarnessTier::Supervisor)
        }),
{
}

/// Everyone with a capability sends and accepts Messages, submits Results, reports turns and reads
/// its inbox; what they may do to whom is decided by the Task.
pub proof fn everyone_takes_part(m: Model, key: TextKey, command: CoordinatorCommand, now: u64)
    requires
        command is SendMessage || command is AcceptDelivery || command is CompleteTask || command
            is RecordTurnCompleted || command is RecordCancellationCompleted || command
            is MarkDeliveryUnknown || command is MarkInboxRead || command is AdmitAttachment
            || command is CaptureRepositoryObservation || command is RotateWorkerSession || command
            is RecordHostReady || command is RecordHostStopped || command is RecordHostFailed
            || command is RecordHostEvent || command is RecordHostCompatibility || command
            is RecordAdapterSnapshot || command is RecordSupervisorBinding || command
            is RecordSupervisorDisconnected,
    ensures
        authenticate(m, key) is Ok ==> authorize(
            m,
            Caller::Session { capability: Some(key) },
            command,
            now,
        ) == Ok::<Option<AuthenticatedActor>, Refusal>(Some(authenticate(m, key)->Ok_0)),
        authenticate_host(m, key, now) is Ok ==> authorize(
            m,
            Caller::Host { capability: Some(key) },
            command,
            now,
        ) == Ok::<Option<AuthenticatedActor>, Refusal>(Some(authenticate_host(m, key, now)->Ok_0)),
{
}

// ---------------------------------------------------------------------------------------------
// Queries
// ---------------------------------------------------------------------------------------------

/// A Worker is not shown the Task graph, the Holds and the events of the Supervisor, nor the input
/// of another Worker's Task; it is shown its own Task's input, and the Supervisor every Task's.
pub proof fn workers_are_not_shown_everything(
    m: Model,
    actor: AuthenticatedActor,
    task: TaskId,
    i: int,
)
    requires
        stands(m, task, i),
    ensures
        ({
            let worker = actor.tier == HarnessTier::Worker;
            let graph = query_refusal(m, actor, CoordinatorQuery::TaskGraph);
            let holds = query_refusal(m, actor, CoordinatorQuery::ActiveHolds);
            let events = query_refusal(m, actor, CoordinatorQuery::SupervisorEvents);
            let input = query_refusal(
                m,
                actor,
                CoordinatorQuery::ResolvedTaskInput { task_id: task },
            );
            let own = !worker || m.tasks[i].worker == actor.id;
            &&& graph is Some == worker
            &&& holds is Some == worker
            &&& events is Some == worker
            &&& worker ==> graph->0.category == ErrorCategory::Forbidden && holds->0.category
                == ErrorCategory::Forbidden && events->0.category == ErrorCategory::Forbidden
            &&& input is Some == !own
            &&& !own ==> input->0.category == ErrorCategory::Forbidden
            &&& query_refusal(m, actor, CoordinatorQuery::GetTask { task_id: task }) is None
            &&& query_refusal(m, actor, CoordinatorQuery::ListTasks) is None
            &&& query_refusal(m, actor, CoordinatorQuery::ListHarnesses) is None
            &&& query_refusal(m, actor, CoordinatorQuery::Inbox) is None
        }),
{
    places_are_found(m, task, i);
}

/// A Task that does not exist is not shown.
pub proof fn missing_tasks_are_not_shown(m: Model, actor: AuthenticatedActor, task: TaskId)
    requires
        forall|j: int| 0 <= j < m.tasks.len() ==> (#[trigger] m.tasks[j]).id != task,
    ensures
        query_refusal(m, actor, CoordinatorQuery::GetTask { task_id: task }) is Some,
        query_refusal(m, actor, CoordinatorQuery::GetTask { task_id: task })->0.category
            == ErrorCategory::NotFound,
        query_refusal(m, actor, CoordinatorQuery::ResolvedTaskInput { task_id: task }) is Some,
{
    first_missing(m.tasks, is_task(task));
}

// ---------------------------------------------------------------------------------------------
// Watches
// ---------------------------------------------------------------------------------------------

/// A Task of a watch is not done: it neither ended nor is under review.
pub open spec fn is_awaited(m: Model, watch: TaskGraphWatchId, r: int, t: int) -> bool {
    &&& 0 <= r < m.watch_roots.len()
    &&& 0 <= t < m.tasks.len()
    &&& m.watch_roots[r].watch == watch
    &&& m.tasks[t].id == m.watch_roots[r].task
    &&& m.tasks[t].state != TaskState::Reviewing
    &&& m.tasks[t].state != TaskState::Approved
    &&& m.tasks[t].state != TaskState::Cancelled
    &&& m.tasks[t].state != TaskState::Failed
}

proof fn awaited_tasks_keep_watches_open(m: Model, w: WatchRow)
    ensures
        watch_due(m, w) == (!w.completed && forall|r: int, t: int| !is_awaited(m, w.id, r, t)),
{
    assert forall|r: int, t: int| keeps_open(m, w, r, t) == is_awaited(m, w.id, r, t) by {}
    if !w.completed && (forall|r: int, t: int| !is_awaited(m, w.id, r, t)) {
        assert forall|r: int, t: int| !keeps_open(m, w, r, t) by {
            assert(!is_awaited(m, w.id, r, t));
        }
    }
    if watch_due(m, w) {
        assert forall|r: int, t: int| !is_awaited(m, w.id, r, t) by {
            assert(!keeps_open(m, w, r, t));
        }
    }
}

/// The tables that the completion of watches leaves alone, and what it says of each watch.
spec fn watched(a: Model, b: Model, n: nat) -> bool {
    &&& b == (Model { watches: b.watches, events: b.events, ..a })
    &&& b.watches.len() == a.watches.len()
    &&& forall|i: int|
        0 <= i < a.watches.len() ==> (#[trigger] b.watches[i]).id == a.watches[i].id
    &&& forall|i: int| n <= i < a.watches.len() ==> #[trigger] b.watches[i] == a.watches[i]
    &&& forall|i: int|
        0 <= i < n && i < a.watches.len() ==> (#[trigger] b.watches[i]).completed == (
        a.watches[i].completed || watch_due(a, a.watches[i]))
    &&& a.events.len() <= b.events.len()
    &&& forall|e: int| 0 <= e < a.events.len() ==> #[trigger] b.events[e] == a.events[e]
    &&& forall|i: int|
        0 <= i < n && i < a.watches.len() && watch_due(a, #[trigger] a.watches[i]) ==> some_where(
            b.events,
            is_event_from(EventOrigin::GraphCompleted { watch: a.watches[i].id }),
        )
}

proof fn completion_is_watched(m: Model, n: nat)
    requires
        n <= m.watches.len(),
    ensures
        watched(m, complete_watches_upto(m, n), n),
    decreases n,
{
    if n > 0 {
        completion_is_watched(m, (n - 1) as nat);
        let before = complete_watches_upto(m, (n - 1) as nat);
        let after = complete_watches_upto(m, n);
        let w = m.watches[n - 1];
        awaited_tasks_keep_watches_open(m, w);
        awaited_tasks_keep_watches_open(before, w);
        assert forall|r: int, t: int| is_awaited(m, w.id, r, t) == is_awaited(before, w.id, r, t) by {
        }
        assert(watch_due(m, w) == watch_due(before, w)) by {
            if forall|r: int, t: int| !is_awaited(m, w.id, r, t) {
                assert forall|r: int, t: int| !is_awaited(before, w.id, r, t) by {
                    assert(!is_awaited(m, w.id, r, t));
                }
            }
            if forall|r: int, t: int| !is_awaited(before, w.id, r, t) {
                assert forall|r: int, t: int| !is_awaited(m, w.id, r, t) by {
                    assert(!is_awaited(before, w.id, r, t));
                }
            }
        }
        assert(before.watches[n - 1] == w);
        assert forall|i: int|
            0 <= i < n && i < m.watches.len() && watch_due(m, #[trigger] m.watches[i]) implies
        some_where(
            after.events,
            is_event_from(EventOrigin::GraphCompleted { watch: m.watches[i].id }),
        ) by {
            let p = is_event_from(EventOrigin::GraphCompleted { watch: m.watches[i].id });
            if i < n - 1 {
                let e = choose|e: int|
                    0 <= e < before.events.len() && p(#[trigger] before.events[e]);
                assert(p(after.events[e]));
            } else if some_where(before.events, p) {
                let e = choose|e: int|
                    0 <= e < before.events.len() && p(#[trigger] before.events[e]);
                assert(p(after.events[e]));
            } else {
                let e = before.events.len() as int;
                assert(p(after.events[e]));
            }
        }
    }
}

/// A watch is kept over 1 to 32 different Tasks that exist, and is complete at once exactly where
/// none of them is awaited; the Supervisor is told of a watch that is complete.
pub proof fn watches_complete_when_nothing_is_awaited(
    m: Model,
    actor: AuthenticatedActor,
    id: TaskGraphWatchId,
    roots: Seq<TaskId>,
    key: Option<TextKey>,
)
    requires
        watch_graph(m, actor, id, roots, key) is Ok,
        forall|r: int| 0 <= r < m.watch_roots.len() ==> (#[trigger] m.watch_roots[r]).watch != id,
    ensures
        ({
            let after = watch_graph(m, actor, id, roots, key)->Ok_0;
            let n = m.watches.len() as int;
            let awaited = exists|k: int, t: int|
                {
                    &&& 0 <= k < roots.len()
                    &&& 0 <= t < m.tasks.len()
                    &&& (#[trigger] m.tasks[t]).id == #[trigger] roots[k]
                    &&& m.tasks[t].state != TaskState::Reviewing
                    &&& m.tasks[t].state != TaskState::Approved
                    &&& m.tasks[t].state != TaskState::Cancelled
                    &&& m.tasks[t].state != TaskState::Failed
                };
            &&& 1 <= roots.len() <= 32
            &&& roots.no_duplicates()
            &&& forall|k: int|
                0 <= k < roots.len() ==> exists|t: int|
                    0 <= t < m.tasks.len() && (#[trigger] m.tasks[t]).id == #[trigger] roots[k]
            &&& after.watches.len() == n + 1
            &&& after.watches[n].id == id
            &&& after.watches[n].completed == !awaited
            &&& after.tasks == m.tasks
            &&& !awaited ==> exists|e: int|
                0 <= e < after.events.len() && (#[trigger] after.events[e]).origin == (
                EventOrigin::GraphCompleted { watch: id })
        }),
{
    let set = Model {
        watches: m.watches.push(
            WatchRow { id, supervisor: actor.id, request_key: key, completed: false },
        ),
        watch_roots: m.watch_roots + roots_of(id, roots),
        ..m
    };
    let n = m.watches.len() as int;
    let w = set.watches[n];
    completion_is_watched(set, set.watches.len());
    awaited_tasks_keep_watches_open(set, w);
    let after = watch_graph(m, actor, id, roots, key)->Ok_0;
    first_says(roots, is_missing_task(m));
    assert forall|k: int| 0 <= k < roots.len() implies exists|t: int|
        0 <= t < m.tasks.len() && (#[trigger] m.tasks[t]).id == #[trigger] roots[k] by {
        assert(!is_missing_task(m)(roots[k]));
        first_says(m.tasks, is_task(roots[k]));
        let t = first_where(m.tasks, is_task(roots[k]))->0;
        assert(m.tasks[t].id == roots[k]);
    }
    let base = m.watch_roots.len() as int;
    assert forall|k: int| 0 <= k < roots.len() implies (#[trigger] set.watch_roots[base + k]).task
        == roots[k] && set.watch_roots[base + k].watch == id by {}
    let awaited = exists|k: int, t: int|
        {
            &&& 0 <= k < roots.len()
            &&& 0 <= t < m.tasks.len()
            &&& (#[trigger] m.tasks[t]).id == #[trigger] roots[k]
            &&& m.tasks[t].state != TaskState::Reviewing
            &&& m.tasks[t].state != TaskState::Approved
            &&& m.tasks[t].state != TaskState::Cancelled
            &&& m.tasks[t].state != TaskState::Failed
        };
    if awaited {
        let (k, t) = choose|k: int, t: int|
            {
                &&& 0 <= k < roots.len()
                &&& 0 <= t < m.tasks.len()
                &&& (#[trigger] m.tasks[t]).id == #[trigger] roots[k]
                &&& m.tasks[t].state != TaskState::Reviewing
                &&& m.tasks[t].state != TaskState::Approved
                &&& m.tasks[t].state != TaskState::Cancelled
                &&& m.tasks[t].state != TaskState::Failed
            };
        assert(set.watch_roots[base + k].task == roots[k]);
        assert(is_awaited(set, id, base + k, t));
    } else {
        assert forall|r: int, t: int| !is_awaited(set, id, r, t) by {
            if is_awaited(set, id, r, t) {
                if r < base {
                    assert(set.watch_roots[r] == m.watch_roots[r]);
                } else {
                    assert(set.watch_roots[base + (r - base)].task == roots[r - base]);
                    assert(m.tasks[t].id == roots[r - base]);
                }
            }
        }
        assert(watch_due(set, w));
        let p = is_event_from(EventOrigin::GraphCompleted { watch: id });
        assert(some_where(after.events, p));
        let e = choose|e: int| 0 <= e < after.events.len() && p(#[trigger] after.events[e]);
        assert(after.events[e].origin == (EventOrigin::GraphCompleted { watch: id }));
    }
}

// ---------------------------------------------------------------------------------------------
// Lost Hosts
// ---------------------------------------------------------------------------------------------

/// A Worker Host that fails ends its Session as failed. The Task that it was busy with fails too,
/// unless it is under review or its delivery is in doubt, and where that Task writes its worktree
/// is held.
pub proof fn work_is_lost_with_its_host(
    m: Model,
    actor: AuthenticatedActor,
    diagnostic: Seq<char>,
    why: Wording,
    o: NewObservation,
    now: u64,
    s: int,
    i: int,
)
    requires
        lives(m, actor.session, s),
        0 <= i < m.tasks.len(),
        stands(m, m.tasks[i].id, i),
        is_busy_with(m.tasks[i], actor.id),
        forall|j: int| 0 <= j < i ==> !is_busy_with(#[trigger] m.tasks[j], actor.id),
        observable(m, m.tasks[i].id, o),
        !blank(diagnostic),
        byte_count(diagnostic) <= 16_384,
    ensures
        ({
            let t = m.tasks[i];
            let (after, answer) = host_failed(m, actor, diagnostic, why, Ok(o), now);
            let stays = t.state == TaskState::Reviewing || t.state == TaskState::DeliveryUnknown;
            &&& actor.tier != HarnessTier::Worker ==> refuses(
                m,
                (after, answer),
                ErrorCategory::Forbidden,
            )
            &&& actor.tier == HarnessTier::Worker ==> {
                &&& answer is Ok
                &&& renews(m, after, s)
                &&& after.sessions[s].ended
                &&& after.sessions[s].presence == Presence::Failed
                &&& stays ==> after.tasks == m.tasks
                &&& !stays ==> after.tasks[i] == (TaskRow { state: TaskState::Failed, ..t })
                &&& t.access == RepositoryAccess::Mutating ==> on_hold(after, t)
                &&& t.access != RepositoryAccess::Mutating ==> after.holds == m.holds
            }
        }),
{
    let t = m.tasks[i];
    let p = occupies(actor.id, None);
    assert forall|j: int| 0 <= j < i implies !p(#[trigger] m.tasks[j]) by {
        assert(!is_busy_with(m.tasks[j], actor.id));
    }
    first_found(m.tasks, p, i);
    places_are_found(m, t.id, i);
    observing_says(m, t.id, o);
    live_rows_are_found(m, actor.session, s);
    let seen = observed(m, t.id, ObservationCheckpoint::Failure, o);
    let dropped = drop_connection(seen, actor.connection, why);
    assert(dropped.tasks == m.tasks && dropped.holds == m.holds && dropped.sessions == m.sessions);
    let failed = fail_with_host(dropped, t, why);
    let set = Model {
        tasks: dropped.tasks.update(i, TaskRow { state: TaskState::Failed, ..dropped.tasks[i] }),
        ..dropped
    };
    record_transition_frame(
        set,
        t.id,
        t.state,
        TaskState::Failed,
        TransitionReason::HostFailure { why },
    );
    let moved = record_transition(
        set,
        t.id,
        t.state,
        TaskState::Failed,
        TransitionReason::HostFailure { why },
    );
    cascade_frame(moved, t.id);
    assert(evolves(moved.tasks[i], cascade(moved, t.id).tasks[i]));
    assert(failed.holds == m.holds && failed.sessions == m.sessions);
    holds_are_found(failed, t);
    let after = host_failed(m, actor, diagnostic, why, Ok(o), now).0;
    let guarded = guard_lost_work(failed, t);
    assert(guarded.sessions == m.sessions);
    assert(lives(guarded, actor.session, s));
    live_rows_are_found(guarded, actor.session, s);
    if actor.tier == HarnessTier::Worker && t.access == RepositoryAccess::Mutating {
        holding_holds(failed, after, t);
    }
}

} // verus!

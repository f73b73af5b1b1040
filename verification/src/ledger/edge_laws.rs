//! What every command leaves as it was: the dependency graph stays free of cycles, a Task has one
//! Session binding in force, and Host connections keep their identities apart.
use vstd::prelude::*;

use crate::contract::{
    DependencyCondition, HarnessTier, MessageKind, ObservationCheckpoint, SupervisorEventKind,
    TaskState,
};
use crate::error::{outcome, Refusal};
use crate::identity::{AttachmentId, HarnessSessionId, HostConnectionId, MessageId, TaskId};
use crate::ledger::cascade::cascade;
use crate::ledger::command_laws::{
    event_command, event_commands_step_aside, report_command, report_commands_step_aside,
    session_command, session_commands_step_aside,
};
use crate::ledger::binding::{binding_question, bound, is_current_binding};
use crate::ledger::connections::{
    bind_connection, claim_stale, is_connection, is_expired_active, is_settling, evidence_for,
    lost_host, message_under_way, outcomes, reap, reap_all, reap_upto, settle_lost_host, stale,
};
use crate::ledger::create::{
    acyclic, create_task, placed, recall, task_ids, DeclaredDependency, KeyedRequest, NewTask,
};
use crate::ledger::dependencies::{is_result, look_at_edges, reevaluate};
use crate::ledger::dispatch::{
    bind, claim_next, commit_dispatch, dispatch_task, is_dependency_of, is_usable_binding,
    needs_lease, next_claim, optional_refusal, preflight, take_lease, DispatchView,
};
use crate::ledger::dispatch_laws::{prepared, refused_dispatches_leave_tasks_alone};
use crate::ledger::events::note_timeouts_frame;
use crate::ledger::evidence::{
    announce_hold, answerable, digested, fail_for_missing_evidence, hold_repository,
    observe_repository, out_of_scope, record_checkpoint, NewObservation,
};
use crate::ledger::execute::{
    authorize, execute, perform, perform_bootstrap, Caller, CoordinatorCommand,
};
use crate::ledger::frames::{
    acknowledge_frame, cascade_frame, mark_read_frame, process_events_frame, transition_frame,
};
use crate::ledger::graph_laws::{creations_keep_the_graph_acyclic, order_depends_on_ends};
use crate::ledger::guards::{aside, one_binding_each};
use crate::ledger::reap_laws::unique_connections;
use crate::ledger::hosts::{drop_connection, given, is_active_connection, or_else};
use crate::ledger::messages::{accept_delivery, posted, resume, send_message, NewMessage};
use crate::ledger::propagation::{revoke, satisfy_downstream};
use crate::ledger::reconcile::{
    clear_holds, clear_worktree_hold, doubted, mark_delivery_unknown, resolve_delivery_unknown,
    DeliveryUnknownResolution,
};
use crate::ledger::settlement::{
    approve_task, cancel_task, hold_for_turn, record_cancellation_completed, record_turn_completed,
    settle_cancellation, settle_turn, terminal,
};
use crate::ledger::shutdown::{
    active_task, fail_with_host, host_failed, host_stopped, is_stoppable_of, settle_host_failure,
    stop_worker,
};
use crate::ledger::steps::{add_hold, transition};
use crate::ledger::{
    complete_watches_frame, find_task, held, is_attempt_of, is_message, is_task, record_transition,
    record_transition_frame, Model,
};
use crate::rows::{
    AttemptRow, AttemptState, AuthenticatedActor, ConnectionRow, DependencyRow, EventOrigin,
    HarnessKey, HoldReason, KeyedOutcome, ResultRow, TaskRow, TextKey, TransitionReason, Wording,
};
use crate::select::{begins, first_says, first_where, last_where, update_where};

verus! {

// ---------------------------------------------------------------------------------------------
// Steps
// ---------------------------------------------------------------------------------------------

/// Messages and Attachments stay as they are, and in their places; new ones stand behind them.
pub open spec fn retains(a: Model, b: Model) -> bool {
    &&& begins(a.messages, b.messages)
    &&& begins(a.attachments, b.attachments)
    &&& begins(a.attached, b.attached)
}

/// The same Tasks with the same submissions, edges between the same ends, and every Message and
/// Attachment as it was.
pub open spec fn same_graph(a: Model, b: Model) -> bool {
    &&& retains(a, b)
    &&& a.tasks.len() == b.tasks.len()
    &&& forall|i: int|
        0 <= i < b.tasks.len() ==> (#[trigger] b.tasks[i]).id == a.tasks[i].id
            && b.tasks[i].submission == a.tasks[i].submission
    &&& a.dependencies.len() == b.dependencies.len()
    &&& forall|k: int|
        0 <= k < b.dependencies.len() ==> (#[trigger] b.dependencies[k]).task
            == a.dependencies[k].task && b.dependencies[k].upstream == a.dependencies[k].upstream
}

/// The same Host connections, whatever their states.
pub open spec fn same_connections(a: Model, b: Model) -> bool {
    &&& a.connections.len() == b.connections.len()
    &&& forall|i: int|
        0 <= i < b.connections.len() ==> (#[trigger] b.connections[i]).id == a.connections[i].id
}

/// The same Tasks, Session bindings and Host connections, and edges between the same ends.
pub open spec fn stays(a: Model, b: Model) -> bool {
    same_graph(a, b) && b.bindings == a.bindings && same_connections(a, b)
}

proof fn same_graph_stays_acyclic(a: Model, b: Model)
    requires
        acyclic(a),
        same_graph(a, b),
    ensures
        acyclic(b),
{
    assert(task_ids(b.tasks) =~= task_ids(a.tasks));
    order_depends_on_ends(task_ids(a.tasks), a.dependencies, b.dependencies);
}

proof fn dropping_keeps_connections(
    m: Model,
    connection: Option<HostConnectionId>,
    why: Wording,
)
    ensures
        same_connections(m, drop_connection(m, connection, why)),
{
    if let Some(id) = connection {
        first_says(m.connections, is_active_connection(id));
    }
}

#[verifier::spinoff_prover]
proof fn session_commands_keep_connections(
    m: Model,
    actor: AuthenticatedActor,
    command: CoordinatorCommand,
    now: u64,
)
    requires
        session_command(command),
        !(command is BindHostConnection),
    ensures
        same_connections(m, perform(m, actor, command, now).0),
{
    if let Some(id) = actor.connection {
        first_says(m.connections, is_active_connection(id));
    }
}

#[verifier::spinoff_prover]
proof fn other_commands_keep_connections(
    m: Model,
    actor: AuthenticatedActor,
    command: CoordinatorCommand,
    now: u64,
)
    requires
        report_command(command) || event_command(command),
    ensures
        same_connections(m, perform(m, actor, command, now).0),
{
}

#[verifier::spinoff_prover]
proof fn plain_commands_retain(
    m: Model,
    actor: AuthenticatedActor,
    command: CoordinatorCommand,
    now: u64,
)
    requires
        session_command(command) || report_command(command) || event_command(command),
    ensures
        retains(m, perform(m, actor, command, now).0),
{
}

proof fn recording_keeps_graph(
    m: Model,
    task: TaskId,
    from: TaskState,
    to: TaskState,
    reason: TransitionReason,
)
    ensures
        stays(m, record_transition(m, task, from, to, reason)),
{
    record_transition_frame(m, task, from, to, reason);
}

proof fn transition_keeps_graph(m: Model, id: TaskId, from: TaskState, to: TaskState, bump: bool)
    ensures
        match transition(m, id, from, to, bump) {
            Ok(next) => stays(m, next),
            Err(_) => true,
        },
{
    if transition(m, id, from, to, bump) is Ok {
        transition_frame(m, id, from, to, bump);
    }
}

proof fn cascade_keeps_graph(m: Model, failed: TaskId)
    ensures
        stays(m, cascade(m, failed)),
{
    cascade_frame(m, failed);
    let c = cascade(m, failed);
    assert forall|i: int| 0 <= i < c.tasks.len() implies (#[trigger] c.tasks[i]).id
        == m.tasks[i].id && c.tasks[i].submission == m.tasks[i].submission by {
        assert(crate::ledger::cascade_laws::evolves(m.tasks[i], c.tasks[i]));
    }
}

proof fn satisfaction_keeps_graph(
    m: Model,
    upstream: TaskId,
    condition: DependencyCondition,
    revision: u32,
)
    ensures
        stays(m, satisfy_downstream(m, upstream, condition, revision)),
{
}

proof fn revocation_keeps_graph(m: Model, upstream: TaskId)
    ensures
        stays(m, revoke(m, upstream)),
{
}

// ---------------------------------------------------------------------------------------------
// Commands
// ---------------------------------------------------------------------------------------------

proof fn missing_evidence_keeps_graph(m: Model, task: TaskId, expected: Seq<TaskState>)
    ensures
        match fail_for_missing_evidence(m, task, expected) {
            Ok(next) => stays(m, next),
            Err(_) => true,
        },
{
    if let Ok(b) = fail_for_missing_evidence(m, task, expected) {
        first_says(m.tasks, is_task(task));
        let i = first_where(m.tasks, is_task(task))->0;
        let t = m.tasks[i];
        let set = Model {
            tasks: m.tasks.update(i, TaskRow { state: TaskState::Failed, ..t }),
            ..m
        };
        let reason = TransitionReason::MissingEvidence;
        recording_keeps_graph(set, task, t.state, TaskState::Failed, reason);
        let moved = record_transition(set, task, t.state, TaskState::Failed, reason);
        cascade_keeps_graph(moved, task);
        let failed = cascade(moved, task);
        assert(b.tasks == failed.tasks && b.dependencies == failed.dependencies);
    }
}

proof fn turn_keeps_graph(
    m: Model,
    actor: AuthenticatedActor,
    task: TaskId,
    turn: TextKey,
    succeeded: bool,
    message: MessageId,
)
    ensures
        match settle_turn(m, actor, task, turn, succeeded, message) {
            Ok((next, _)) => stays(m, next),
            Err(_) => true,
        },
{
    if let Ok((b, next)) = settle_turn(m, actor, task, turn, succeeded, message) {
        first_says(m.tasks, is_task(task));
        let t = find_task(m, task)->0;
        let drifted = succeeded && out_of_scope(m, task, ObservationCheckpoint::Result)->Ok_0;
        if next == TaskState::Reviewing {
            let sealed = Model {
                results: update_where(
                    m.results,
                    is_result(t.id, t.revision),
                    |x: ResultRow| terminal(x),
                ),
                ..m
            };
            transition_keeps_graph(sealed, t.id, t.state, TaskState::Reviewing, false);
            let moved = transition(sealed, t.id, t.state, TaskState::Reviewing, false)->Ok_0;
            let stopped = hold_for_turn(moved, t, TaskState::Reviewing, drifted);
            assert(stays(m, stopped));
            if !drifted {
                let condition = DependencyCondition::ResultReady;
                satisfaction_keeps_graph(stopped, t.id, condition, t.revision);
                let offered = satisfy_downstream(stopped, t.id, condition, t.revision);
                assert(b.tasks == offered.tasks && b.dependencies == offered.dependencies);
            }
        } else {
            transition_keeps_graph(m, t.id, t.state, TaskState::Failed, false);
            let moved = transition(m, t.id, t.state, TaskState::Failed, false)->Ok_0;
            cascade_keeps_graph(moved, t.id);
        }
    }
}

proof fn completed_turns_keep_graph(
    m: Model,
    actor: AuthenticatedActor,
    task: TaskId,
    turn: TextKey,
    succeeded: bool,
    captured: Result<NewObservation, Refusal>,
    message: MessageId,
)
    ensures
        stays(
            m,
            record_turn_completed(m, actor, task, turn, succeeded, captured, message).0,
        ),
{
    let checkpoint = if succeeded {
        ObservationCheckpoint::Result
    } else {
        ObservationCheckpoint::Failure
    };
    missing_evidence_keeps_graph(m, task, seq![TaskState::Working, TaskState::Waiting]);
    if let Ok(seen) = record_checkpoint(m, task, checkpoint, captured) {
        turn_keeps_graph(seen, actor, task, turn, succeeded, message);
    }
}

proof fn cancelling_keeps_graph(m: Model, task: TaskId)
    ensures
        match cancel_task(m, task) {
            Ok((next, _)) => stays(m, next),
            Err(_) => true,
        },
{
    if let Ok((b, next)) = cancel_task(m, task) {
        let t = find_task(m, task)->0;
        transition_keeps_graph(m, task, t.state, next, false);
        cascade_keeps_graph(transition(m, task, t.state, next, false)->Ok_0, task);
    }
}

proof fn cancellations_keep_graph(
    m: Model,
    actor: AuthenticatedActor,
    task: TaskId,
    succeeded: bool,
    captured: Result<NewObservation, Refusal>,
)
    ensures
        stays(m, record_cancellation_completed(m, actor, task, succeeded, captured).0),
{
    let checkpoint = if succeeded {
        ObservationCheckpoint::Cancel
    } else {
        ObservationCheckpoint::Failure
    };
    missing_evidence_keeps_graph(m, task, seq![TaskState::Cancelling]);
    if let Ok(seen) = record_checkpoint(m, task, checkpoint, captured) {
        if let Ok((b, next)) = settle_cancellation(seen, task, succeeded) {
            transition_keeps_graph(seen, task, TaskState::Cancelling, next, false);
            let moved = transition(seen, task, TaskState::Cancelling, next, false)->Ok_0;
            cascade_keeps_graph(moved, task);
        }
    }
}

proof fn holding_keeps_graph(m: Model, task: TaskId, reason: HoldReason)
    ensures
        match hold_repository(m, task, reason) {
            Ok(next) => stays(m, next),
            Err(_) => true,
        },
{
    if let Ok(b) = hold_repository(m, task, reason) {
        let t = find_task(m, task)->0;
        let owner = answerable(t)->0;
        let stopped = if held(m, t.worktree) {
            m
        } else {
            announce_hold(
                add_hold(m, t.worktree, owner, reason),
                owner,
                EventOrigin::Hold { task: owner, reason },
            )
        };
        revocation_keeps_graph(stopped, task);
        assert(b == stopped || b == revoke(stopped, task));
    }
}

proof fn observing_keeps_graph(
    m: Model,
    actor: AuthenticatedActor,
    task: TaskId,
    checkpoint: ObservationCheckpoint,
    captured: Result<NewObservation, Refusal>,
)
    ensures
        stays(m, observe_repository(m, actor, task, checkpoint, captured).0),
{
    holding_keeps_graph(m, task, HoldReason::RepositoryCheckpointFailed);
}

proof fn approving_keeps_graph(
    m: Model,
    task: TaskId,
    revision: u32,
    digest: Seq<char>,
    key: TextKey,
    drift: Option<Refusal>,
)
    ensures
        stays(m, approve_task(m, task, revision, digest, key, drift).0),
{
    holding_keeps_graph(m, task, HoldReason::OutOfScopeApprovalDrift);
    let (b, r) = approve_task(m, task, revision, digest, key, drift);
    if r is Ok {
        first_says(m.tasks, is_task(task));
        let i = first_where(m.tasks, is_task(task))->0;
        let row = TaskRow {
            state: TaskState::Approved,
            approved_revision: Some(revision),
            approval: digested(m, task, ObservationCheckpoint::Approval, key),
            ..m.tasks[i]
        };
        let set = Model { tasks: m.tasks.update(i, row), ..m };
        let (from, to) = (TaskState::Reviewing, TaskState::Approved);
        recording_keeps_graph(set, task, from, to, TransitionReason::Plain);
        let moved = record_transition(set, task, from, to, TransitionReason::Plain);
        satisfaction_keeps_graph(moved, task, DependencyCondition::Approved, revision);
        let offered = satisfy_downstream(moved, task, DependencyCondition::Approved, revision);
        process_events_frame(
            offered,
            SupervisorEventKind::ResultReady,
            task,
            Some(revision),
            offered.events.len(),
        );
        assert(b.tasks == offered.tasks && b.dependencies == offered.dependencies);
    }
}

proof fn sending_keeps_graph(
    m: Model,
    actor: AuthenticatedActor,
    q: KeyedRequest,
    new: NewMessage,
    attachments: Seq<AttachmentId>,
)
    ensures
        match send_message(m, actor, q, new, attachments) {
            Ok((next, _)) => stays(m, next),
            Err(_) => true,
        },
{
    if let Ok((b, _)) = send_message(m, actor, q, new, attachments) {
        if b != m {
            let sent = posted(m, actor, new);
            match (new.kind, new.task) {
                (MessageKind::Question, Some(id)) => {
                    first_says(m.tasks, is_task(id));
                    let i = first_where(m.tasks, is_task(id))->0;
                    let row = TaskRow { state: TaskState::Waiting, ..sent.tasks[i] };
                    let set = Model { tasks: sent.tasks.update(i, row), ..sent };
                    record_transition_frame(
                        set,
                        id,
                        TaskState::Working,
                        TaskState::Waiting,
                        TransitionReason::Plain,
                    );
                    assert(b.tasks == set.tasks && b.dependencies == set.dependencies);
                },
                (MessageKind::Reply, Some(id)) => {
                    process_events_frame(
                        sent,
                        SupervisorEventKind::BlockingQuestion,
                        id,
                        None,
                        sent.events.len(),
                    );
                },
                (MessageKind::Correction, Some(id)) => {
                    process_events_frame(
                        sent,
                        SupervisorEventKind::ResultReady,
                        id,
                        None,
                        sent.events.len(),
                    );
                },
                _ => {},
            }
        }
    }
}

proof fn accepting_keeps_graph(
    m: Model,
    actor: AuthenticatedActor,
    id: MessageId,
    correlation: Seq<char>,
    key: TextKey,
)
    ensures
        match accept_delivery(m, actor, id, correlation, key) {
            Ok(next) => stays(m, next),
            Err(_) => true,
        },
{
    if let Ok(b) = accept_delivery(m, actor, id, correlation, key) {
        let k = last_where(m.attempts, is_attempt_of(id))->0;
        let accepted = AttemptRow {
            state: AttemptState::Accepted,
            wrote: true,
            correlation: Some(key),
            ..m.attempts[k]
        };
        let seen = Model { attempts: m.attempts.update(k, accepted), ..m };
        let message = m.messages[first_where(m.messages, is_message(id))->0];
        assert(resume(seen, message) == Ok::<Model, Refusal>(b));
        if let Some(task) = message.task {
            let (working, reviewing) = (TaskState::Working, TaskState::Reviewing);
            transition_keeps_graph(seen, task, TaskState::Dispatching, working, false);
            transition_keeps_graph(seen, task, TaskState::Waiting, working, false);
            transition_keeps_graph(seen, task, reviewing, working, true);
            revocation_keeps_graph(transition(seen, task, reviewing, working, true)->Ok_0, task);
        }
    }
}

proof fn doubting_keeps_graph(
    m: Model,
    actor: AuthenticatedActor,
    id: MessageId,
    diagnostic: Seq<char>,
    why: Wording,
)
    ensures
        match mark_delivery_unknown(m, actor, id, diagnostic, why) {
            Ok((next, _)) => stays(m, next),
            Err(_) => true,
        },
{
    if let Ok((b, task)) = mark_delivery_unknown(m, actor, id, diagnostic, why) {
        transition_keeps_graph(
            doubted(m, id, why),
            task,
            TaskState::Dispatching,
            TaskState::DeliveryUnknown,
            false,
        );
    }
}

proof fn resolving_keeps_graph(
    m: Model,
    task: TaskId,
    resolution: DeliveryUnknownResolution,
    digest: Seq<char>,
    key: TextKey,
    note: Seq<char>,
    note_key: TextKey,
    drift: Option<Refusal>,
)
    ensures
        match resolve_delivery_unknown(m, task, resolution, digest, key, note, note_key, drift) {
            Ok((next, _)) => stays(m, next),
            Err(_) => true,
        },
{
    let settled = resolve_delivery_unknown(m, task, resolution, digest, key, note, note_key, drift);
    if let Ok((b, next)) = settled {
        transition_keeps_graph(m, task, TaskState::DeliveryUnknown, next, false);
        let moved = transition(m, task, TaskState::DeliveryUnknown, next, false)->Ok_0;
        cascade_keeps_graph(moved, task);
    }
}

proof fn clearing_keeps_graph(
    m: Model,
    task: TaskId,
    digest: Seq<char>,
    key: TextKey,
    note: Seq<char>,
    note_key: TextKey,
    drift: Option<Refusal>,
)
    ensures
        match clear_worktree_hold(m, task, digest, key, note, note_key, drift) {
            Ok(next) => stays(m, next),
            Err(_) => true,
        },
{
    if let Ok(b) = clear_worktree_hold(m, task, digest, key, note, note_key, drift) {
        let t = find_task(m, task)->0;
        let observation = digested(m, task, ObservationCheckpoint::HoldClear, key)->0;
        satisfaction_keeps_graph(
            clear_holds(m, task, observation, note_key),
            task,
            DependencyCondition::ResultReady,
            t.revision,
        );
    }
}

proof fn dispatching_keeps_graph(m: Model, id: TaskId, lock: Option<Refusal>)
    ensures
        match commit_dispatch(m, id, lock) {
            Ok((next, _)) => stays(m, next),
            Err(_) => true,
        },
{
    if let Ok((b, message)) = commit_dispatch(m, id, lock) {
        first_says(m.tasks, is_task(id));
        let i = first_where(m.tasks, is_task(id))->0;
        let t = m.tasks[i];
        let taken = if needs_lease(m, t) {
            take_lease(m, t.worktree, t.id)
        } else {
            m
        };
        let s = m.bindings[first_where(
            m.bindings,
            is_usable_binding(m, id, t.worker),
        )->0].session;
        let row = TaskRow { state: TaskState::Dispatching, active_session: Some(s), ..t };
        let set = Model {
            dependencies: update_where(
                m.dependencies,
                is_dependency_of(t.id),
                |d: DependencyRow| bind(d),
            ),
            tasks: m.tasks.update(i, row),
            ..taken
        };
        record_transition_frame(
            set,
            t.id,
            TaskState::Queued,
            TaskState::Dispatching,
            TransitionReason::Plain,
        );
        assert(b.tasks == set.tasks && b.dependencies == set.dependencies);
    }
}

proof fn dispatches_keep_graph(m: Model, id: TaskId, f: DispatchView)
    ensures
        same_graph(m, dispatch_task(m, id, f).0),
        same_connections(m, dispatch_task(m, id, f).0),
{
    refused_dispatches_leave_tasks_alone(m, id, f);
    if dispatch_task(m, id, f).1 is Ok {
        assert(retains(m, prepared(m, id, f)));
    }
    dispatching_keeps_graph(prepared(m, id, f), id, f.lock);
}

proof fn claims_keep_graph(
    m: Model,
    worker: HarnessKey,
    session: HarnessSessionId,
    f: DispatchView,
)
    ensures
        same_graph(m, claim_next(m, worker, session, f).0),
        same_connections(m, claim_next(m, worker, session, f).0),
{
    if let Some(task) = next_claim(m, worker) {
        dispatches_keep_graph(m, task, f);
        let next = dispatch_task(m, task, f).0;
        let b = claim_next(m, worker, session, f).0;
        assert(aside(next, b) && retains(next, b));
    }
}

proof fn stopping_keeps_graph(m: Model, worker: HarnessKey, now: u64)
    ensures
        match stop_worker(m, worker, now) {
            Ok(next) => stays(m, next),
            Err(_) => true,
        },
{
    if let Some(i) = first_where(m.tasks, is_stoppable_of(worker)) {
        let t = m.tasks[i];
        transition_keeps_graph(m, t.id, t.state, TaskState::Cancelling, false);
    }
}

proof fn host_failure_keeps_graph(
    m: Model,
    actor: AuthenticatedActor,
    lost: Option<TaskRow>,
    why: Wording,
    now: u64,
)
    ensures
        stays(m, settle_host_failure(m, actor, lost, why, now)),
{
    dropping_keeps_connections(m, actor.connection, why);
    if let Some(t) = lost {
        let dropped = drop_connection(m, actor.connection, why);
        first_says(m.tasks, is_task(t.id));
        if let Some(i) = first_where(m.tasks, is_task(t.id)) {
            let row = TaskRow { state: TaskState::Failed, ..dropped.tasks[i] };
            let set = Model { tasks: dropped.tasks.update(i, row), ..dropped };
            let reason = TransitionReason::HostFailure { why };
            recording_keeps_graph(set, t.id, t.state, TaskState::Failed, reason);
            let moved = record_transition(set, t.id, t.state, TaskState::Failed, reason);
            cascade_keeps_graph(moved, t.id);
        }
        assert(stays(m, fail_with_host(dropped, t, why)));
    }
}

proof fn failing_hosts_keep_graph(
    m: Model,
    actor: AuthenticatedActor,
    diagnostic: Seq<char>,
    why: Wording,
    captured: Result<NewObservation, Refusal>,
    now: u64,
)
    ensures
        stays(m, host_failed(m, actor, diagnostic, why, captured, now).0),
{
    match active_task(m, actor.id) {
        None => {
            host_failure_keeps_graph(m, actor, None, why, now);
        },
        Some(t) => {
            missing_evidence_keeps_graph(m, t.id, seq![t.state]);
            match record_checkpoint(m, t.id, ObservationCheckpoint::Failure, captured) {
                Ok(seen) => {
                    host_failure_keeps_graph(seen, actor, Some(t), why, now);
                },
                Err(_) => {
                    if let Ok(failed) = fail_for_missing_evidence(m, t.id, seq![t.state]) {
                        dropping_keeps_connections(
                            failed,
                            actor.connection,
                            Wording::HostStopped { clean: false },
                        );
                        if let Ok(stopped) = host_stopped(failed, actor, false, now) {
                            assert(aside(failed, stopped));
                        }
                    }
                },
            }
        },
    }
}

proof fn reaping_keeps_graph(
    m: Model,
    c: ConnectionRow,
    actor: AuthenticatedActor,
    captured: Result<NewObservation, Refusal>,
    now: u64,
)
    ensures
        stays(m, reap(m, c, actor, captured, now).0),
{
    if let Some(claimed) = claim_stale(m, c, now) {
        assert(aside(m, claimed));
        first_says(m.connections, is_expired_active(c.id, now));
        let (settled, r) = settle_lost_host(claimed, actor, captured, now);
        assert(stays(claimed, settled)) by {
            if actor.tier == HarnessTier::Supervisor {
                let why = Wording::SupervisorLeaseExpired;
                let dropped = drop_connection(claimed, actor.connection, why);
                dropping_keeps_connections(claimed, actor.connection, why);
                note_timeouts_frame(dropped, dropped.event_attempts.len(), why);
            } else {
                match message_under_way(claimed, actor.id) {
                    Some(message) => {
                        doubting_keeps_graph(
                            claimed,
                            actor,
                            message,
                            "Worker Host presence expired during native Task dispatch"@,
                            Wording::DispatchLeaseExpired,
                        );
                    },
                    None => {
                        failing_hosts_keep_graph(
                            claimed,
                            actor,
                            "Worker Host presence lease expired without a clean disconnect"@,
                            Wording::WorkerLeaseExpired,
                            captured,
                            now,
                        );
                    },
                }
            }
        }
        first_says(settled.connections, is_settling(c.id));
        assert(aside(settled, reap(m, c, actor, captured, now).0));
    }
}

proof fn reaps_keep_graph(
    m: Model,
    evidence: Seq<Result<NewObservation, Refusal>>,
    now: u64,
    n: nat,
)
    ensures
        stays(m, reap_upto(m, evidence, now, n).0),
    decreases n,
{
    if n > 0 {
        reaps_keep_graph(m, evidence, now, (n - 1) as nat);
        let before = reap_upto(m, evidence, now, (n - 1) as nat).0;
        let c = stale(m, now)[n - 1];
        reaping_keeps_graph(before, c, lost_host(m, c), evidence_for(evidence, n - 1), now);
    }
}

#[verifier::rlimit(60)]
#[verifier::spinoff_prover]
proof fn performing_keeps_graph(
    m: Model,
    actor: AuthenticatedActor,
    command: CoordinatorCommand,
    now: u64,
)
    requires
        !(command is CreateTask),
    ensures
        same_graph(m, perform(m, actor, command, now).0),
        !(command is DispatchTask || command is ClaimNextTask) ==> m.bindings == perform(
            m,
            actor,
            command,
            now,
        ).0.bindings,
        !(command is BindHostConnection) ==> same_connections(m, perform(m, actor, command, now).0),
{
    let b = perform(m, actor, command, now).0;
    match command {
        CoordinatorCommand::DispatchTask { task_id, facts } => {
            dispatches_keep_graph(m, task_id, facts@);
        },
        CoordinatorCommand::ClaimNextTask { facts } => {
            claims_keep_graph(m, actor.id, actor.session, facts@);
        },
        CoordinatorCommand::SendMessage { request_key, payload, message, attachments } => {
            sending_keeps_graph(
                m,
                actor,
                KeyedRequest { actor: actor.id, creates_task: false, request_key, payload },
                message,
                attachments@,
            );
        },
        CoordinatorCommand::AcceptDelivery { message_id, native_correlation, correlation } => {
            accepting_keeps_graph(m, actor, message_id, native_correlation@, correlation);
        },
        CoordinatorCommand::RecordTurnCompleted {
            task_id,
            turn,
            succeeded,
            captured,
            message_id,
        } => {
            completed_turns_keep_graph(
                m,
                actor,
                task_id,
                turn,
                succeeded,
                outcome(captured),
                message_id,
            );
        },
        CoordinatorCommand::CaptureRepositoryObservation {
            task_id,
            checkpoint,
            captured,
        } => {
            observing_keeps_graph(
                m,
                actor,
                task_id,
                checkpoint,
                outcome(captured),
            );
        },
        CoordinatorCommand::ApproveTask {
            task_id,
            result_revision,
            observation_digest,
            digest,
            drift,
        } => {
            approving_keeps_graph(
                m,
                task_id,
                result_revision,
                observation_digest@,
                digest,
                optional_refusal(drift),
            );
        },
        CoordinatorCommand::CancelTask { task_id } => {
            cancelling_keeps_graph(m, task_id);
        },
        CoordinatorCommand::RecordCancellationCompleted { task_id, succeeded, captured } => {
            cancellations_keep_graph(
                m,
                actor,
                task_id,
                succeeded,
                outcome(captured),
            );
        },
        CoordinatorCommand::MarkDeliveryUnknown { message_id, diagnostic, key } => {
            let why = Wording::Given { text: key };
            doubting_keeps_graph(m, actor, message_id, diagnostic@, why);
        },
        CoordinatorCommand::ResolveDeliveryUnknown {
            task_id,
            resolution,
            observation_digest,
            digest,
            audit_note,
            note,
            drift,
        } => {
            resolving_keeps_graph(
                m,
                task_id,
                resolution,
                observation_digest@,
                digest,
                audit_note@,
                note,
                optional_refusal(drift),
            );
        },
        CoordinatorCommand::ClearWorktreeHold {
            task_id,
            observation_digest,
            digest,
            audit_note,
            note,
            drift,
        } => {
            clearing_keeps_graph(
                m,
                task_id,
                observation_digest@,
                digest,
                audit_note@,
                note,
                optional_refusal(drift),
            );
        },
        CoordinatorCommand::StopWorker { worker_id } => {
            stopping_keeps_graph(m, worker_id, now);
        },
        CoordinatorCommand::RecordHostFailed { diagnostic, key, captured } => {
            failing_hosts_keep_graph(
                m,
                actor,
                diagnostic@,
                Wording::Given { text: key },
                outcome(captured),
                now,
            );
        },
        CoordinatorCommand::MarkInboxRead { message_ids } => {
            mark_read_frame(m, actor.id, message_ids@, message_ids@.len());
            assert(aside(m, b));
        },
        CoordinatorCommand::AcknowledgeSupervisorEvents { event_ids } => {
            acknowledge_frame(m, actor, event_ids@, event_ids@.len());
            assert(aside(m, b));
        },
        CoordinatorCommand::RecordSupervisorBinding { .. } => {
            note_timeouts_frame(m, m.event_attempts.len(), Wording::SupervisorReconnected);
            assert(aside(m, b));
        },
        CoordinatorCommand::RecordSupervisorDisconnected { key, .. } => {
            let closing = or_else(given(key), Wording::SupervisorDisconnected);
            let doubting = or_else(given(key), Wording::SupervisorDisconnectedDispatching);
            let dropped = drop_connection(m, actor.connection, closing);
            dropping_keeps_connections(m, actor.connection, closing);
            note_timeouts_frame(dropped, dropped.event_attempts.len(), doubting);
            assert(aside(m, b));
        },
        CoordinatorCommand::WatchTaskGraph { watch_id, root_task_ids, request_key } => {
            let watched = Model {
                watches: m.watches.push(
                    crate::rows::WatchRow {
                        id: watch_id,
                        supervisor: actor.id,
                        request_key,
                        completed: false,
                    },
                ),
                watch_roots: m.watch_roots + crate::ledger::attention::roots_of(
                    watch_id,
                    root_task_ids@,
                ),
                ..m
            };
            complete_watches_frame(watched, watched.watches.len());
            assert(aside(m, b));
        },
        _ => {
            if session_command(command) {
                session_commands_step_aside(m, actor, command, now);
                if !(command is BindHostConnection) {
                    session_commands_keep_connections(m, actor, command, now);
                }
            } else if report_command(command) {
                report_commands_step_aside(m, actor, command, now);
                other_commands_keep_connections(m, actor, command, now);
            } else if event_command(command) {
                event_commands_step_aside(m, actor, command, now);
                other_commands_keep_connections(m, actor, command, now);
            } else {
                assert(b == m);
            }
            if b != m {
                plain_commands_retain(m, actor, command, now);
            }
            assert(aside(m, b));
        },
    }
}

/// What every command but a creation leaves as it was.
proof fn executing_keeps_graph(m: Model, caller: Caller, command: CoordinatorCommand, now: u64)
    requires
        !(command is CreateTask),
    ensures
        same_graph(m, execute(m, caller, command, now).0),
        !(command is DispatchTask || command is ClaimNextTask) ==> m.bindings == execute(
            m,
            caller,
            command,
            now,
        ).0.bindings,
        !(command is BindHostConnection) ==> same_connections(
            m,
            execute(m, caller, command, now).0,
        ),
{
    match authorize(m, caller, command, now) {
        Err(_) => {},
        Ok(Some(actor)) => {
            performing_keeps_graph(m, actor, command, now);
        },
        Ok(None) => {
            match command {
                CoordinatorCommand::ReapStaleHostConnections { evidence } => {
                    let found = outcomes(evidence@);
                    reaps_keep_graph(m, found, now, stale(m, now).len());
                    let settled = reap_upto(m, found, now, stale(m, now).len()).0;
                    assert(aside(settled, reap_all(m, found, now).0));
                },
                _ => {
                    let b = perform_bootstrap(m, command, now).0;
                    assert(aside(m, b) && b.bindings == m.bindings);
                },
            }
        },
    }
}

proof fn creations_retain(
    m: Model,
    q: KeyedRequest,
    new: NewTask,
    depends_on: Seq<DeclaredDependency>,
    attachments: Seq<AttachmentId>,
)
    ensures
        match create_task(m, q, new, depends_on, attachments) {
            Ok((b, _)) => retains(m, b) && m.tasks.len() <= b.tasks.len() && (forall|i: int|
                0 <= i < m.tasks.len() ==> (#[trigger] b.tasks[i]).id == m.tasks[i].id
                    && b.tasks[i].submission == m.tasks[i].submission),
            Err(_) => true,
        },
{
    if let Ok((b, _)) = create_task(m, q, new, depends_on, attachments) {
        if recall(m, q) == Ok::<Option<KeyedOutcome>, Refusal>(None) {
            let rows = placed(m, new, depends_on);
            let after = reevaluate(rows, new.id);
            first_says(look_at_edges(rows, new.id).tasks, is_task(new.id));
            assert(b.tasks == after.tasks);
        }
    }
}

/// What was given to store stays as it was given, whatever command comes: every Message keeps its
/// body, every Attachment its record and its owner, and every Task its submission.
pub proof fn every_command_keeps_what_was_stored(
    m: Model,
    caller: Caller,
    command: CoordinatorCommand,
    now: u64,
)
    ensures
        ({
            let b = execute(m, caller, command, now).0;
            &&& retains(m, b)
            &&& m.tasks.len() <= b.tasks.len()
            &&& forall|i: int|
                0 <= i < m.tasks.len() ==> (#[trigger] b.tasks[i]).id == m.tasks[i].id
                    && b.tasks[i].submission == m.tasks[i].submission
        }),
{
    match (command, authorize(m, caller, command, now)) {
        (
            CoordinatorCommand::CreateTask { request_key, payload, task, depends_on, attachments },
            Ok(Some(actor)),
        ) => {
            creations_retain(
                m,
                KeyedRequest { actor: actor.id, creates_task: true, request_key, payload },
                task,
                depends_on@,
                attachments@,
            );
        },
        _ => {
            if !(command is CreateTask) {
                executing_keeps_graph(m, caller, command, now);
            }
        },
    }
}

/// Every command keeps the dependency graph free of cycles: what any Task waits for can be worked
/// off in some order.
pub proof fn every_command_keeps_the_graph_acyclic(
    m: Model,
    caller: Caller,
    command: CoordinatorCommand,
    now: u64,
)
    requires
        acyclic(m),
    ensures
        acyclic(execute(m, caller, command, now).0),
{
    match (command, authorize(m, caller, command, now)) {
        (
            CoordinatorCommand::CreateTask { request_key, payload, task, depends_on, attachments },
            Ok(Some(actor)),
        ) => {
            creations_keep_the_graph_acyclic(
                m,
                KeyedRequest { actor: actor.id, creates_task: true, request_key, payload },
                task,
                depends_on@,
                attachments@,
            );
        },
        _ => {
            if !(command is CreateTask) {
                executing_keeps_graph(m, caller, command, now);
                same_graph_stays_acyclic(m, execute(m, caller, command, now).0);
            }
        },
    }
}

// ---------------------------------------------------------------------------------------------
// Session bindings
// ---------------------------------------------------------------------------------------------

/// A Task that is bound stays bound once: it is bound anew only where no binding is in force.
proof fn dispatches_keep_one_binding(m: Model, id: TaskId, f: DispatchView)
    requires
        one_binding_each(m),
    ensures
        one_binding_each(dispatch_task(m, id, f).0),
{
    if let (None, Ok(q)) = (preflight(m, id), binding_question(m, id, f.policy)) {
        let requested = find_task(m, id)->0.policy;
        let chosen = bound(m, id, requested, f.policy, q, f.reusable, f.judged, f.code, f.words);
        first_says(m.bindings, is_current_binding(id));
        assert(one_binding_each(chosen)) by {
            assert forall|i: int, j: int|
                0 <= i < j < chosen.bindings.len() && !(#[trigger] chosen.bindings[i]).superseded
                    && !(#[trigger] chosen.bindings[j]).superseded implies chosen.bindings[i].task
                != chosen.bindings[j].task by {
                assert(i < m.bindings.len());
                assert(chosen.bindings[i] == m.bindings[i]);
                if j < m.bindings.len() {
                    assert(chosen.bindings[j] == m.bindings[j]);
                } else {
                    assert(!is_current_binding(id)(m.bindings[i]));
                }
            }
        }
        let before = ObservationCheckpoint::BeforeDispatch;
        if let (true, Ok(seen)) = (
            f.reusable,
            record_checkpoint(chosen, id, before, f.captured),
        ) {
            dispatching_keeps_graph(seen, id, f.lock);
        }
    }
}

/// Every command keeps the identities of Host connections apart.
pub proof fn every_command_keeps_connections_unique(
    m: Model,
    caller: Caller,
    command: CoordinatorCommand,
    now: u64,
)
    requires
        unique_connections(m),
    ensures
        unique_connections(execute(m, caller, command, now).0),
{
    let b = execute(m, caller, command, now).0;
    match (command, authorize(m, caller, command, now)) {
        (CoordinatorCommand::BindHostConnection { instance_id, connection }, Ok(Some(actor))) => {
            if bind_connection(m, actor, instance_id@, connection, now) is Ok {
                let last = m.connections.len() as int;
                assert forall|i: int, j: int| 0 <= i < j < b.connections.len() implies (
                #[trigger] b.connections[i]).id != (#[trigger] b.connections[j]).id by {
                    assert(b.connections[i].id == m.connections[i].id);
                    if j < last {
                        assert(m.connections[i].id != m.connections[j].id);
                        assert(b.connections[j].id == m.connections[j].id);
                    } else {
                        assert(!is_connection(connection.id)(m.connections[i]));
                    }
                }
            }
        },
        (CoordinatorCommand::CreateTask { .. }, _) => {
            assert(b.connections == m.connections);
        },
        _ => {
            if !(command is BindHostConnection) {
                executing_keeps_graph(m, caller, command, now);
                assert forall|i: int, j: int| 0 <= i < j < b.connections.len() implies (
                #[trigger] b.connections[i]).id != (#[trigger] b.connections[j]).id by {
                    assert(m.connections[i].id != m.connections[j].id);
                }
            }
        },
    }
}

/// Every command leaves at most one Session binding in force for each Task.
pub proof fn every_command_keeps_one_binding(
    m: Model,
    caller: Caller,
    command: CoordinatorCommand,
    now: u64,
)
    requires
        one_binding_each(m),
    ensures
        one_binding_each(execute(m, caller, command, now).0),
{
    match (command, authorize(m, caller, command, now)) {
        (CoordinatorCommand::CreateTask { .. }, _) => {
            assert(execute(m, caller, command, now).0.bindings == m.bindings);
        },
        (CoordinatorCommand::DispatchTask { task_id, facts }, Ok(Some(_))) => {
            dispatches_keep_one_binding(m, task_id, facts@);
        },
        (CoordinatorCommand::ClaimNextTask { facts }, Ok(Some(actor))) => {
            if let Some(task) = next_claim(m, actor.id) {
                dispatches_keep_one_binding(m, task, facts@);
                let next = dispatch_task(m, task, facts@).0;
                let b = claim_next(m, actor.id, actor.session, facts@).0;
                assert(b.bindings == next.bindings);
            }
        },
        _ => {
            if !(command is DispatchTask || command is ClaimNextTask) {
                executing_keeps_graph(m, caller, command, now);
            }
        },
    }
}

} // verus!

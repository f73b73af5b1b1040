//! The laws of the command boundary: no command leaves the lifecycle or breaks a guard.
use vstd::prelude::*;

use crate::contract::{HarnessTier, ObservationCheckpoint, RepositoryAccess, TaskState};
use crate::error::Refusal;
use crate::identity::{AttachmentId, HarnessSessionId, TaskId};
use crate::ledger::connections::{
    claim_stale, evidence_for, lost_host, outcomes, reap, reap_upto, settle_lost_host, stale,
};
use crate::ledger::create::{
    create_task, edges_of, placed, DeclaredDependency, KeyedRequest, NewTask,
};
use crate::ledger::dependencies::{is_unmet_of, look_at_edges, looked_at, reevaluate};
use crate::ledger::dispatch::{
    bind, claim_next, commit_dispatch, dispatch_task, is_dependency_of, is_lease_row, needs_lease,
    next_claim, take_lease, DispatchView,
};
use crate::ledger::dispatch_laws::{prepared, refused_dispatches_leave_tasks_alone};
use crate::ledger::events::note_timeouts_frame;
use crate::ledger::evidence::{fail_for_missing_evidence, record_checkpoint, NewObservation};
use crate::ledger::edge_laws::every_command_keeps_one_binding;
use crate::ledger::execute::{
    authorize, execute, perform, perform_bootstrap, Caller, CoordinatorCommand,
};
use crate::ledger::frames::{acknowledge_frame, cascade_frame, mark_read_frame};
use crate::ledger::guard_laws::{
    accepting_is_lawful, approving_is_lawful, cancellations_are_lawful, cancelling_is_lawful,
    checkpoint_is_aside, clearing_is_lawful, completed_turns_are_lawful, doubting_is_lawful,
    ended_task_is_lawful, missing_evidence_is_lawful, observing_is_lawful, resolving_is_lawful,
    sending_is_lawful,
};
use crate::ledger::guards::{
    aside, aside_is_lawful, frees, frozen_edge, guarded, shielded, lawful, leases_to,
    moved_tasks_stay_unique, moves, moves_on, new_holds_stay_single, next_state,
    resting_steps_keep, rests, transition_moves, writes,
};
use crate::ledger::shutdown::{
    active_task, fail_with_host, host_failed, host_stopped, is_stoppable_of, settle_host_failure,
    stop_work, stop_worker,
};
use crate::ledger::hosts::{drop_connection, given, or_else};
use crate::ledger::{
    active_state, complete_watches_frame, find_task, is_active_lease_on, is_task, occupies,
    record_transition, record_transition_frame, terminal_state, Model,
};
use crate::rows::{
    AuthenticatedActor, ConnectionRow, DependencyRow, HarnessKey, HoldReason, TaskRow,
    TransitionReason, Wording,
};
use crate::select::{first_found, first_says, first_where, update_where};

verus! {

// ---------------------------------------------------------------------------------------------
// Hosts
// ---------------------------------------------------------------------------------------------

proof fn stopping_is_lawful(m: Model, worker: HarnessKey, now: u64)
    requires
        shielded(m),
    ensures
        match stop_worker(m, worker, now) {
            Ok(next) => lawful(m, next),
            Err(_) => true,
        },
{
    if let Ok(b) = stop_worker(m, worker, now) {
        let next = stop_work(m, worker)->Ok_0;
        first_says(m.tasks, is_stoppable_of(worker));
        match first_where(m.tasks, is_stoppable_of(worker)) {
            None => {
                aside_is_lawful(m, b);
            },
            Some(i) => {
                let t = m.tasks[i];
                assert(is_stoppable_of(worker)(t));
                transition_moves(m, t.id, t.state, TaskState::Cancelling, false);
                assert(b.tasks == next.tasks);
                assert(moves(m, b) && rests(m, b));
                moved_tasks_stay_unique(m, b);
                resting_steps_keep(m, b, None);
            },
        }
    }
}

proof fn host_failure_is_lawful(
    m: Model,
    actor: AuthenticatedActor,
    lost: Option<TaskRow>,
    why: Wording,
    now: u64,
)
    requires
        shielded(m),
        match lost {
            Some(t) => find_task(m, t.id) == Some(t) && active_state(t.state),
            None => true,
        },
    ensures
        lawful(m, settle_host_failure(m, actor, lost, why, now)),
{
    let b = settle_host_failure(m, actor, lost, why, now);
    match lost {
        None => {
            aside_is_lawful(m, b);
        },
        Some(t) => {
            first_says(m.tasks, is_task(t.id));
            let i = first_where(m.tasks, is_task(t.id))->0;
            let dropped = drop_connection(m, actor.connection, why);
            assert(aside(m, dropped));
            let failed = fail_with_host(dropped, t, why);
            assert forall|j: int| 0 <= j < m.tasks.len() && (#[trigger] m.tasks[j]).id == t.id
                implies j == i by {
                if j < i {
                    assert(m.tasks[j].id != m.tasks[i].id);
                } else if j > i {
                    assert(m.tasks[i].id != m.tasks[j].id);
                }
            }
            if t.state != TaskState::DeliveryUnknown && t.state != TaskState::Reviewing {
                let set = Model {
                    tasks: dropped.tasks.update(
                        i,
                        TaskRow { state: TaskState::Failed, ..dropped.tasks[i] },
                    ),
                    ..dropped
                };
                record_transition_frame(
                    set,
                    t.id,
                    t.state,
                    TaskState::Failed,
                    TransitionReason::HostFailure { why },
                );
                let moved = record_transition(
                    set,
                    t.id,
                    t.state,
                    TaskState::Failed,
                    TransitionReason::HostFailure { why },
                );
                assert(next_state(t.state, TaskState::Failed));
                assert forall|j: int| 0 <= j < m.tasks.len() implies moves_on(
                    #[trigger] m.tasks[j],
                    moved.tasks[j],
                ) by {
                    assert(j == i || moved.tasks[j] == m.tasks[j]);
                }
                cascade_frame(moved, t.id);
                new_holds_stay_single(failed, t.worktree, t.id, HoldReason::WorkerHostFailed);
                if t.access == RepositoryAccess::Mutating {
                    ended_task_is_lawful(m, b, t.id, moved, None);
                } else {
                    assert(frees(m, b, Some(t.id))) by {
                        assert forall|j: int|
                            0 <= j < b.tasks.len() && (#[trigger] b.tasks[j]).id == t.id implies
                        !writes(b.tasks[j]) by {
                            assert(crate::ledger::cascade_laws::evolves(
                                moved.tasks[j],
                                b.tasks[j],
                            ));
                            assert(m.tasks[j].id == t.id);
                        }
                    }
                    ended_task_is_lawful(m, b, t.id, moved, Some(t.id));
                }
            } else {
                assert(failed == dropped);
                new_holds_stay_single(dropped, t.worktree, t.id, HoldReason::WorkerHostFailed);
                assert(b.tasks == m.tasks);
                assert forall|j: int| 0 <= j < m.tasks.len() implies moves_on(
                    #[trigger] m.tasks[j],
                    b.tasks[j],
                ) by {}
                if t.access == RepositoryAccess::Mutating {
                    resting_steps_keep(m, b, None);
                } else {
                    resting_steps_keep(m, b, Some(t.id));
                }
            }
        },
    }
}

proof fn failing_hosts_are_lawful(
    m: Model,
    actor: AuthenticatedActor,
    diagnostic: Seq<char>,
    why: Wording,
    captured: Result<NewObservation, Refusal>,
    now: u64,
)
    requires
        shielded(m),
    ensures
        lawful(m, host_failed(m, actor, diagnostic, why, captured, now).0),
{
    aside_is_lawful(m, m);
    first_says(m.tasks, occupies(actor.id, None));
    match active_task(m, actor.id) {
        None => {
            host_failure_is_lawful(m, actor, None, why, now);
        },
        Some(t) => {
            let i = first_where(m.tasks, occupies(actor.id, None))->0;
            assert(occupies(actor.id, None)(m.tasks[i]));
            assert(find_task(m, t.id) == Some(t)) by {
                assert forall|j: int| 0 <= j < i implies !is_task(t.id)(#[trigger] m.tasks[j]) by {
                    assert(m.tasks[j].id != m.tasks[i].id);
                }
                first_found(m.tasks, is_task(t.id), i);
            }
            checkpoint_is_aside(m, t.id, ObservationCheckpoint::Failure, captured);
            missing_evidence_is_lawful(m, t.id, seq![t.state]);
            match record_checkpoint(m, t.id, ObservationCheckpoint::Failure, captured) {
                Ok(seen) => {
                    assert(find_task(seen, t.id) == Some(t));
                    host_failure_is_lawful(seen, actor, Some(t), why, now);
                    let b = settle_host_failure(seen, actor, Some(t), why, now);
                    assert forall|j: int| 0 <= j < m.tasks.len() implies moves_on(
                        #[trigger] m.tasks[j],
                        b.tasks[j],
                    ) by {
                        assert(moves_on(seen.tasks[j], b.tasks[j]));
                    }
                },
                Err(_) => {
                    if let Ok(failed) = fail_for_missing_evidence(m, t.id, seq![t.state]) {
                        if let Ok(stopped) = host_stopped(failed, actor, false, now) {
                            assert(aside(failed, stopped));
                            aside_is_lawful(failed, stopped);
                            assert(stopped.tasks == failed.tasks);
                        }
                    }
                },
            }
        },
    }
}

proof fn reaping_is_lawful(
    m: Model,
    c: ConnectionRow,
    actor: AuthenticatedActor,
    captured: Result<NewObservation, Refusal>,
    now: u64,
)
    requires
        shielded(m),
    ensures
        lawful(m, reap(m, c, actor, captured, now).0),
{
    aside_is_lawful(m, m);
    if let Some(claimed) = claim_stale(m, c, now) {
        assert(aside(m, claimed));
        aside_is_lawful(m, claimed);
        let (settled, r) = settle_lost_host(claimed, actor, captured, now);
        assert(lawful(claimed, settled)) by {
            aside_is_lawful(claimed, claimed);
            if actor.tier == HarnessTier::Supervisor {
                let why = Wording::SupervisorLeaseExpired;
                let dropped = drop_connection(claimed, actor.connection, why);
                note_timeouts_frame(dropped, dropped.event_attempts.len(), why);
                assert(aside(claimed, settled));
                aside_is_lawful(claimed, settled);
            } else {
                match crate::ledger::connections::message_under_way(claimed, actor.id) {
                    Some(message) => {
                        doubting_is_lawful(
                            claimed,
                            actor,
                            message,
                            "Worker Host presence expired during native Task dispatch"@,
                            Wording::DispatchLeaseExpired,
                        );
                    },
                    None => {
                        failing_hosts_are_lawful(
                            claimed,
                            actor,
                            "Worker Host presence lease expired without a clean disconnect"@,
                            Wording::WorkerLeaseExpired,
                            captured,
                            now,
                        );
                    },
                }
            }
        }
        let b = reap(m, c, actor, captured, now).0;
        assert(aside(settled, b));
        aside_is_lawful(settled, b);
        assert forall|j: int| 0 <= j < m.tasks.len() implies moves_on(
            #[trigger] m.tasks[j],
            b.tasks[j],
        ) by {
            assert(moves_on(claimed.tasks[j], settled.tasks[j]));
        }
    }
}

/// Each settlement of a reap takes the tables on by one lawful step.
proof fn reaps_are_lawful(
    m: Model,
    evidence: Seq<Result<NewObservation, Refusal>>,
    now: u64,
    n: nat,
)
    requires
        shielded(m),
    ensures
        shielded(reap_upto(m, evidence, now, n).0),
        n > 0 ==> moves(
            reap_upto(m, evidence, now, (n - 1) as nat).0,
            reap_upto(m, evidence, now, n).0,
        ),
    decreases n,
{
    if n > 0 {
        reaps_are_lawful(m, evidence, now, (n - 1) as nat);
        let before = reap_upto(m, evidence, now, (n - 1) as nat).0;
        let c = stale(m, now)[n - 1];
        aside_is_lawful(before, before);
        reaping_is_lawful(before, c, lost_host(m, c), evidence_for(evidence, n - 1), now);
    }
}

// ---------------------------------------------------------------------------------------------
// Creation and dispatch
// ---------------------------------------------------------------------------------------------

proof fn creating_is_lawful(
    m: Model,
    q: KeyedRequest,
    new: NewTask,
    depends_on: Seq<DeclaredDependency>,
    attachments: Seq<AttachmentId>,
)
    requires
        shielded(m),
    ensures
        match create_task(m, q, new, depends_on, attachments) {
            Ok((next, _)) => lawful(m, next),
            Err(_) => true,
        },
{
    if let Ok((b, _)) = create_task(m, q, new, depends_on, attachments) {
        if crate::ledger::create::recall(m, q) == Ok::<
            Option<crate::rows::KeyedOutcome>,
            Refusal,
        >(None) {
            let rows = placed(m, new, depends_on);
            let seen = look_at_edges(rows, new.id);
            let after = reevaluate(rows, new.id);
            first_says(m.tasks, is_task(new.id));
            assert(crate::ledger::create::creation_refusal(m, new, depends_on, attachments)
                is None);
            first_says(
                depends_on,
                crate::ledger::create::is_refused_dependency(m, new.canonical_root),
            );
            assert(find_task(m, new.id) is None);
            let last = m.tasks.len() as int;
            assert forall|j: int| 0 <= j < last implies !is_task(new.id)(
                #[trigger] seen.tasks[j],
            ) by {
                assert(!is_task(new.id)(m.tasks[j]));
            }
            first_found(seen.tasks, is_task(new.id), last);
            assert(b.tasks == after.tasks);
            assert(b.tasks.len() == last + 1);
            assert forall|j: int| 0 <= j < last implies #[trigger] b.tasks[j] == m.tasks[j] by {}
            assert(!active_state(b.tasks[last].state));
            assert(b.tasks[last].id == new.id);
            assert forall|j: int| 0 <= j < m.tasks.len() implies moves_on(
                #[trigger] m.tasks[j],
                b.tasks[j],
            ) by {
                assert(b.tasks[j] == m.tasks[j]);
            }
            assert forall|i: int, j: int| 0 <= i < j < b.tasks.len() implies (
            #[trigger] b.tasks[i]).id != (#[trigger] b.tasks[j]).id by {
                assert(b.tasks[i] == m.tasks[i]);
                assert(!is_task(new.id)(m.tasks[i]));
                if j < last {
                    assert(b.tasks[j] == m.tasks[j]);
                }
            }
            assert forall|k: int| 0 <= k < b.dependencies.len() implies frozen_edge(
                #[trigger] b.dependencies[k],
            ) by {
                assert(b.dependencies[k] == looked_at(rows, new.id, rows.dependencies[k]));
                if k < m.dependencies.len() {
                    assert(rows.dependencies[k] == m.dependencies[k]);
                    assert(frozen_edge(m.dependencies[k]));
                } else {
                    assert(rows.dependencies[k] == edges_of(
                        new.id,
                        depends_on,
                    )[k - m.dependencies.len()]);
                }
            }
            assert(b.holds == m.holds);
            resting_steps_keep(m, b, None);
        } else {
            aside_is_lawful(m, b);
        }
    }
}

proof fn dispatching_is_lawful(m: Model, id: TaskId, lock: Option<Refusal>)
    requires
        shielded(m),
    ensures
        match commit_dispatch(m, id, lock) {
            Ok((next, _)) => lawful(m, next),
            Err(_) => true,
        },
{
    if let Ok((b, message)) = commit_dispatch(m, id, lock) {
        first_says(m.tasks, is_task(id));
        let i = first_where(m.tasks, is_task(id))->0;
        let t = m.tasks[i];
        let session = b.tasks[i].active_session;
        let taken = if needs_lease(m, t) {
            take_lease(m, t.worktree, t.id)
        } else {
            m
        };
        first_says(m.leases, is_lease_row(t.worktree));
        first_says(m.leases, is_active_lease_on(t.worktree));
        let s = m.bindings[first_where(
            m.bindings,
            crate::ledger::dispatch::is_usable_binding(m, id, t.worker),
        )->0].session;
        let set = Model {
            dependencies: update_where(
                m.dependencies,
                is_dependency_of(t.id),
                |d: DependencyRow| bind(d),
            ),
            tasks: m.tasks.update(
                i,
                TaskRow { state: TaskState::Dispatching, active_session: Some(s), ..t },
            ),
            ..taken
        };
        record_transition_frame(
            set,
            t.id,
            TaskState::Queued,
            TaskState::Dispatching,
            TransitionReason::Plain,
        );
        assert(b.tasks == set.tasks && b.leases == taken.leases && b.holds == m.holds
            && b.dependencies == set.dependencies);
        assert(moves(m, b)) by {
            assert forall|j: int| 0 <= j < m.tasks.len() implies moves_on(
                #[trigger] m.tasks[j],
                b.tasks[j],
            ) by {
                assert(j == i || b.tasks[j] == m.tasks[j]);
            }
        }
        moved_tasks_stay_unique(m, b);
        assert forall|x: int, y: int|
            0 <= x < b.tasks.len() && 0 <= y < b.tasks.len() && x != y && active_state(
                (#[trigger] b.tasks[x]).state,
            ) && active_state((#[trigger] b.tasks[y]).state) implies b.tasks[x].worker
            != b.tasks[y].worker by {
            assert(x == i || b.tasks[x] == m.tasks[x]);
            assert(y == i || b.tasks[y] == m.tasks[y]);
            if x == i {
                assert(!occupies(t.worker, Some(id))(m.tasks[y]));
                if y < i {
                    assert(m.tasks[y].id != m.tasks[i].id);
                } else {
                    assert(m.tasks[i].id != m.tasks[y].id);
                }
            } else if y == i {
                assert(!occupies(t.worker, Some(id))(m.tasks[x]));
                if x < i {
                    assert(m.tasks[x].id != m.tasks[i].id);
                } else {
                    assert(m.tasks[i].id != m.tasks[x].id);
                }
            }
        }
        assert forall|x: int, y: int|
            0 <= x < b.leases.len() && 0 <= y < b.leases.len() && x != y implies (
        #[trigger] b.leases[x]).worktree != (#[trigger] b.leases[y]).worktree by {
            if x < m.leases.len() {
                assert(b.leases[x].worktree == m.leases[x].worktree);
            }
            if y < m.leases.len() {
                assert(b.leases[y].worktree == m.leases[y].worktree);
            }
            if x >= m.leases.len() {
                assert(!is_lease_row(t.worktree)(m.leases[y]));
            }
            if y >= m.leases.len() {
                assert(!is_lease_row(t.worktree)(m.leases[x]));
            }
        }
        assert forall|x: int| 0 <= x < b.tasks.len() && writes(#[trigger] b.tasks[x]) implies exists|
            k: int,
        | 0 <= k < b.leases.len() && leases_to(#[trigger] b.leases[k], b.tasks[x]) by {
            if x == i {
                if needs_lease(m, t) {
                    match first_where(m.leases, is_lease_row(t.worktree)) {
                        Some(k) => {
                            assert(leases_to(b.leases[k], b.tasks[x]));
                        },
                        None => {
                            assert(leases_to(b.leases[b.leases.len() - 1], b.tasks[x]));
                        },
                    }
                } else {
                    let k = first_where(m.leases, is_active_lease_on(t.worktree))->0;
                    assert(is_active_lease_on(t.worktree)(m.leases[k]));
                    assert(leases_to(b.leases[k], b.tasks[x]));
                }
            } else {
                assert(b.tasks[x] == m.tasks[x]);
                let k = choose|k: int|
                    0 <= k < m.leases.len() && leases_to(#[trigger] m.leases[k], m.tasks[x]);
                if needs_lease(m, t) && m.leases[k].worktree == t.worktree {
                    assert(!is_active_lease_on(t.worktree)(m.leases[k]));
                }
                assert(leases_to(b.leases[k], b.tasks[x]));
            }
        }
        assert forall|k: int| 0 <= k < b.dependencies.len() implies frozen_edge(
            #[trigger] b.dependencies[k],
        ) by {
            assert(frozen_edge(m.dependencies[k]));
            assert(!is_unmet_of(id)(m.dependencies[k]));
        }
    }
}

proof fn dispatches_are_lawful(m: Model, id: TaskId, f: DispatchView)
    requires
        shielded(m),
    ensures
        lawful(m, dispatch_task(m, id, f).0),
{
    refused_dispatches_leave_tasks_alone(m, id, f);
    let (b, r) = dispatch_task(m, id, f);
    if r is Ok {
        let seen = prepared(m, id, f);
        aside_is_lawful(m, seen);
        dispatching_is_lawful(seen, id, f.lock);
        assert forall|j: int| 0 <= j < m.tasks.len() implies moves_on(
            #[trigger] m.tasks[j],
            b.tasks[j],
        ) by {
            assert(moves_on(seen.tasks[j], b.tasks[j]));
        }
    } else {
        aside_is_lawful(m, b);
    }
}

proof fn claims_are_lawful(
    m: Model,
    worker: HarnessKey,
    session: HarnessSessionId,
    f: DispatchView,
)
    requires
        shielded(m),
    ensures
        lawful(m, claim_next(m, worker, session, f).0),
{
    aside_is_lawful(m, m);
    if let Some(task) = next_claim(m, worker) {
        dispatches_are_lawful(m, task, f);
        let next = dispatch_task(m, task, f).0;
        let b = claim_next(m, worker, session, f).0;
        assert(aside(next, b));
        aside_is_lawful(next, b);
        assert forall|j: int| 0 <= j < m.tasks.len() implies moves_on(
            #[trigger] m.tasks[j],
            b.tasks[j],
        ) by {
            assert(moves_on(m.tasks[j], next.tasks[j]));
        }
    }
}

// ---------------------------------------------------------------------------------------------
// The boundary
// ---------------------------------------------------------------------------------------------

pub open spec fn session_command(command: CoordinatorCommand) -> bool {
    command is BindHostConnection
        || command is RenewHostConnection
        || command is DisconnectHostConnection
        || command is StartWorker
        || command is AbortWorkerStart
        || command is RotateWorkerSession
        || command is DeactivateWorkspace
        || command is RecordHostStopped
}

#[verifier::spinoff_prover]
pub proof fn session_commands_step_aside(
    m: Model,
    actor: AuthenticatedActor,
    command: CoordinatorCommand,
    now: u64,
)
    requires
        session_command(command),
    ensures
        aside(m, perform(m, actor, command, now).0),
        perform(m, actor, command, now).0.bindings == m.bindings,
{
}

pub open spec fn report_command(command: CoordinatorCommand) -> bool {
    command is RecordHostReady
        || command is RecordHostCompatibility
        || command is RecordAdapterSnapshot
        || command is RecordHostEvent
        || command is AdmitAttachment
        || command is CompleteTask
}

#[verifier::spinoff_prover]
pub proof fn report_commands_step_aside(
    m: Model,
    actor: AuthenticatedActor,
    command: CoordinatorCommand,
    now: u64,
)
    requires
        report_command(command),
    ensures
        aside(m, perform(m, actor, command, now).0),
        perform(m, actor, command, now).0.bindings == m.bindings,
{
}

pub open spec fn event_command(command: CoordinatorCommand) -> bool {
    command is ClaimNextSupervisorEvent
        || command is AcceptSupervisorEvent
        || command is RecordSupervisorEventPresentation
        || command is MarkSupervisorEventUnknown
        || command is ReleaseSupervisorEvent
        || command is ReconcileSupervisorEvent
}

#[verifier::spinoff_prover]
pub proof fn event_commands_step_aside(
    m: Model,
    actor: AuthenticatedActor,
    command: CoordinatorCommand,
    now: u64,
)
    requires
        event_command(command),
    ensures
        aside(m, perform(m, actor, command, now).0),
        perform(m, actor, command, now).0.bindings == m.bindings,
{
}

proof fn performing_is_lawful(
    m: Model,
    actor: AuthenticatedActor,
    command: CoordinatorCommand,
    now: u64,
)
    requires
        shielded(m),
    ensures
        lawful(m, perform(m, actor, command, now).0),
{
    aside_is_lawful(m, m);
    let b = perform(m, actor, command, now).0;
    match command {
        CoordinatorCommand::CreateTask { request_key, payload, task, depends_on, attachments } => {
            creating_is_lawful(
                m,
                KeyedRequest { actor: actor.id, creates_task: true, request_key, payload },
                task,
                depends_on@,
                attachments@,
            );
        },
        CoordinatorCommand::DispatchTask { task_id, facts } => {
            dispatches_are_lawful(m, task_id, facts@);
        },
        CoordinatorCommand::ClaimNextTask { facts } => {
            claims_are_lawful(m, actor.id, actor.session, facts@);
        },
        CoordinatorCommand::SendMessage { request_key, payload, message, attachments } => {
            sending_is_lawful(
                m,
                actor,
                KeyedRequest { actor: actor.id, creates_task: false, request_key, payload },
                message,
                attachments@,
            );
        },
        CoordinatorCommand::AcceptDelivery { message_id, native_correlation, correlation } => {
            accepting_is_lawful(m, actor, message_id, native_correlation@, correlation);
        },
        CoordinatorCommand::RecordTurnCompleted {
            task_id,
            turn,
            succeeded,
            captured,
            message_id,
        } => {
            completed_turns_are_lawful(
                m,
                actor,
                task_id,
                turn,
                succeeded,
                crate::error::outcome(captured),
                message_id,
            );
        },
        CoordinatorCommand::CaptureRepositoryObservation {
            task_id,
            checkpoint,
            captured,
        } => {
            observing_is_lawful(
                m,
                actor,
                task_id,
                checkpoint,
                crate::error::outcome(captured),
            );
        },
        CoordinatorCommand::ApproveTask {
            task_id,
            result_revision,
            observation_digest,
            digest,
            drift,
        } => {
            approving_is_lawful(
                m,
                task_id,
                result_revision,
                observation_digest@,
                digest,
                crate::ledger::dispatch::optional_refusal(drift),
            );
        },
        CoordinatorCommand::CancelTask { task_id } => {
            cancelling_is_lawful(m, task_id);
        },
        CoordinatorCommand::RecordCancellationCompleted { task_id, succeeded, captured } => {
            cancellations_are_lawful(
                m,
                actor,
                task_id,
                succeeded,
                crate::error::outcome(captured),
            );
        },
        CoordinatorCommand::MarkDeliveryUnknown { message_id, diagnostic, key } => {
            let why = Wording::Given { text: key };
            doubting_is_lawful(m, actor, message_id, diagnostic@, why);
        },
        CoordinatorCommand::ResolveDeliveryUnknown {
            task_id,
            resolution,
            observation_digest,
            digest,
            audit_note,
            note,
            drift,
        } => {
            resolving_is_lawful(
                m,
                task_id,
                resolution,
                observation_digest@,
                digest,
                audit_note@,
                note,
                crate::ledger::dispatch::optional_refusal(drift),
            );
        },
        CoordinatorCommand::ClearWorktreeHold {
            task_id,
            observation_digest,
            digest,
            audit_note,
            note,
            drift,
        } => {
            clearing_is_lawful(
                m,
                task_id,
                observation_digest@,
                digest,
                audit_note@,
                note,
                crate::ledger::dispatch::optional_refusal(drift),
            );
        },
        CoordinatorCommand::StopWorker { worker_id } => {
            stopping_is_lawful(m, worker_id, now);
        },
        CoordinatorCommand::RecordHostFailed { diagnostic, key, captured } => {
            failing_hosts_are_lawful(
                m,
                actor,
                diagnostic@,
                Wording::Given { text: key },
                crate::error::outcome(captured),
                now,
            );
        },
        CoordinatorCommand::MarkInboxRead { message_ids } => {
            mark_read_frame(m, actor.id, message_ids@, message_ids@.len());
            aside_is_lawful(m, b);
        },
        CoordinatorCommand::AcknowledgeSupervisorEvents { event_ids } => {
            acknowledge_frame(m, actor, event_ids@, event_ids@.len());
            aside_is_lawful(m, b);
        },
        CoordinatorCommand::RecordSupervisorBinding { .. } => {
            note_timeouts_frame(m, m.event_attempts.len(), Wording::SupervisorReconnected);
            aside_is_lawful(m, b);
        },
        CoordinatorCommand::RecordSupervisorDisconnected { key, .. } => {
            let closing = or_else(given(key), Wording::SupervisorDisconnected);
            let doubting = or_else(given(key), Wording::SupervisorDisconnectedDispatching);
            let dropped = drop_connection(m, actor.connection, closing);
            note_timeouts_frame(dropped, dropped.event_attempts.len(), doubting);
            aside_is_lawful(m, b);
        },
        CoordinatorCommand::WatchTaskGraph { watch_id, root_task_ids, request_key } => {
            let watched = Model {
                watches: m.watches.push(
                    crate::rows::WatchRow {
                        id: watch_id,
                        supervisor: actor.id,
                        request_key,
                        completed: false,
                    },
                ),
                watch_roots: m.watch_roots + crate::ledger::attention::roots_of(
                    watch_id,
                    root_task_ids@,
                ),
                ..m
            };
            complete_watches_frame(watched, watched.watches.len());
            aside_is_lawful(m, b);
        },
        _ => {
            if session_command(command) {
                session_commands_step_aside(m, actor, command, now);
            } else if report_command(command) {
                report_commands_step_aside(m, actor, command, now);
            } else if event_command(command) {
                event_commands_step_aside(m, actor, command, now);
            } else {
                assert(b == m);
            }
            aside_is_lawful(m, b);
        },
    }
}

/// Every command keeps the guards: one active Task for each Worker, one lease and one Hold in force
/// for each worktree, a lease for every active mutating Task, unique Task identities, edges that
/// are bound with the Result that satisfied them, and one Session binding in force for each Task.
pub proof fn every_command_keeps_the_guards(
    m: Model,
    caller: Caller,
    command: CoordinatorCommand,
    now: u64,
)
    requires
        guarded(m),
    ensures
        guarded(execute(m, caller, command, now).0),
{
    executing_is_lawful(m, caller, command, now);
    every_command_keeps_one_binding(m, caller, command, now);
}

/// Tables that one comes to by steps each of which takes every Task along its lifecycle by one
/// transition at most.
pub open spec fn follows(a: Model, b: Model) -> bool {
    exists|path: Seq<Model>| #[trigger] leads(path, a, b)
}

/// A way from one state of the tables to another.
pub open spec fn leads(path: Seq<Model>, a: Model, b: Model) -> bool {
    &&& path.len() > 0
    &&& path[0] == a
    &&& path.last() == b
    &&& forall|k: int| 0 <= k < path.len() - 1 ==> moves(#[trigger] path[k], path[k + 1])
}

proof fn reaps_lead(
    m: Model,
    evidence: Seq<Result<NewObservation, Refusal>>,
    now: u64,
    n: nat,
) -> (path: Seq<Model>)
    requires
        shielded(m),
    ensures
        leads(path, m, reap_upto(m, evidence, now, n).0),
        path.len() == n + 1,
    decreases n,
{
    if n == 0 {
        seq![m]
    } else {
        let before = reaps_lead(m, evidence, now, (n - 1) as nat);
        reaps_are_lawful(m, evidence, now, n);
        let next = reap_upto(m, evidence, now, n).0;
        let path = before.push(next);
        assert forall|k: int| 0 <= k < path.len() - 1 implies moves(
            #[trigger] path[k],
            path[k + 1],
        ) by {
            if k < before.len() - 1 {
                assert(moves(before[k], before[k + 1]));
            }
        }
        path
    }
}

/// Every command takes each Task along its lifecycle, by one step at most, and never removes one; a
/// reap does so for each connection that it settles.
pub proof fn every_command_follows_the_lifecycle(
    m: Model,
    caller: Caller,
    command: CoordinatorCommand,
    now: u64,
)
    requires
        guarded(m),
    ensures
        !(command is ReapStaleHostConnections) ==> moves(m, execute(m, caller, command, now).0),
        follows(m, execute(m, caller, command, now).0),
{
    let b = execute(m, caller, command, now).0;
    executing_is_lawful(m, caller, command, now);
    match (command, authorize(m, caller, command, now)) {
        (CoordinatorCommand::ReapStaleHostConnections { evidence }, Ok(None)) => {
            let found = outcomes(evidence@);
            let n = stale(m, now).len();
            let before = reaps_lead(m, found, now, n);
            let settled = reap_upto(m, found, now, n).0;
            let path = before.push(b);
            reaps_are_lawful(m, found, now, n);
            aside_is_lawful(settled, b);
            assert(leads(path, m, b)) by {
                assert forall|k: int| 0 <= k < path.len() - 1 implies moves(
                    #[trigger] path[k],
                    path[k + 1],
                ) by {
                    if k < before.len() - 1 {
                        assert(moves(before[k], before[k + 1]));
                    }
                }
            }
        },
        _ => {
            if command is ReapStaleHostConnections {
                unprivileged_reaps_change_nothing(m, caller, command, now);
            }
            assert(leads(seq![m, b], m, b));
        },
    }
}

/// A reap that is not a bootstrap command is refused.
proof fn unprivileged_reaps_change_nothing(
    m: Model,
    caller: Caller,
    command: CoordinatorCommand,
    now: u64,
)
    requires
        shielded(m),
        command is ReapStaleHostConnections,
        !(authorize(m, caller, command, now) == Ok::<Option<AuthenticatedActor>, Refusal>(None)),
    ensures
        execute(m, caller, command, now).0 == m,
        moves(m, m),
{
    aside_is_lawful(m, m);
}

/// No command takes a Task out of a terminal state.
pub proof fn finished_tasks_stay_finished(
    m: Model,
    caller: Caller,
    command: CoordinatorCommand,
    now: u64,
    i: int,
)
    requires
        guarded(m),
        0 <= i < m.tasks.len(),
        terminal_state(m.tasks[i].state),
    ensures
        execute(m, caller, command, now).0.tasks[i].state == m.tasks[i].state,
        execute(m, caller, command, now).0.tasks[i].id == m.tasks[i].id,
{
    every_command_follows_the_lifecycle(m, caller, command, now);
    let b = execute(m, caller, command, now).0;
    let path = choose|path: Seq<Model>| #[trigger] leads(path, m, b);
    finished_along(path, m, b, i, path.len() - 1);
}

proof fn finished_along(path: Seq<Model>, m: Model, b: Model, i: int, k: int)
    requires
        leads(path, m, b),
        0 <= i < m.tasks.len(),
        terminal_state(m.tasks[i].state),
        0 <= k < path.len(),
    ensures
        i < path[k].tasks.len(),
        path[k].tasks[i].state == m.tasks[i].state,
        path[k].tasks[i].id == m.tasks[i].id,
    decreases k,
{
    if k > 0 {
        finished_along(path, m, b, i, k - 1);
        assert(moves(path[k - 1], path[k - 1 + 1]));
        assert(moves_on(path[k - 1].tasks[i], path[k].tasks[i]));
    }
}

proof fn executing_is_lawful(m: Model, caller: Caller, command: CoordinatorCommand, now: u64)
    requires
        shielded(m),
    ensures
        shielded(execute(m, caller, command, now).0),
        !(command is ReapStaleHostConnections) ==> moves(m, execute(m, caller, command, now).0),
{
    aside_is_lawful(m, m);
    match authorize(m, caller, command, now) {
        Err(_) => {},
        Ok(Some(actor)) => {
            performing_is_lawful(m, actor, command, now);
        },
        Ok(None) => {
            let b = perform_bootstrap(m, command, now).0;
            match command {
                CoordinatorCommand::ReapStaleHostConnections { evidence } => {
                    let found = outcomes(evidence@);
                    let n = stale(m, now).len();
                    reaps_are_lawful(m, found, now, n);
                    let settled = reap_upto(m, found, now, n).0;
                    assert(aside(settled, b));
                    aside_is_lawful(settled, b);
                },
                _ => {
                    assert(aside(m, b));
                    aside_is_lawful(m, b);
                },
            }
        },
    }
}

} // verus!

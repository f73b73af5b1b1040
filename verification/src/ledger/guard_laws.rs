//! Every command follows the lifecycle of Tasks and keeps the guards.
use vstd::prelude::*;

use crate::contract::{
    DependencyCondition, MessageKind, ObservationCheckpoint, RepositoryAccess, SupervisorEventKind,
    TaskState,
};
use crate::error::Refusal;
use crate::identity::{AttachmentId, MessageId, RepositoryObservationId, TaskId};
use crate::ledger::cascade::cascade;
use crate::ledger::cascade_laws::unique_tasks;
use crate::ledger::create::KeyedRequest;
use crate::ledger::evidence::{
    fail_for_missing_evidence, hold_repository, observe_repository, record_checkpoint,
    NewObservation,
};
use crate::ledger::frames::{cascade_frame, process_events_frame};
use crate::ledger::guards::{
    aside, aside_is_lawful, drains, fading_keeps_frozen, frees, shielded, lawful,
    moved_tasks_stay_unique, moves, moves_on, new_holds_stay_single, next_state, one_hold_each,
    resting_steps_keep, rests, revocation_frame, satisfaction_frame, standing_follows,
    transition_moves, waning_follows, writes,
};
use crate::ledger::messages::{accept_delivery, posted, resume, send_message, NewMessage};
use crate::ledger::propagation::{revoke, satisfy_downstream};
use crate::ledger::reconcile::{
    clear_holds, clear_worktree_hold, doubted, mark_delivery_unknown, resolve_delivery_unknown,
    DeliveryUnknownResolution,
};
use crate::ledger::settlement::{
    approve_task, cancel_task, hold_for_turn, record_cancellation_completed, record_turn_completed,
    settle_cancellation, settle_turn,
};
use crate::ledger::steps::{add_hold, transition};
use crate::ledger::{
    active_state, find_task, held, is_task, record_transition, record_transition_frame, Model,
};
use crate::rows::{
    AuthenticatedActor, EventOrigin, HoldReason, TaskRow, TextKey, TransitionReason, Wording,
};
use crate::select::{first_says, first_where, update_where};

verus! {

// ---------------------------------------------------------------------------------------------
// Settled Tasks
// ---------------------------------------------------------------------------------------------

/// A Task moved to a state that is no longer active, with its cascade, and with a Hold or without
/// its lease.
pub proof fn ended_task_is_lawful(m: Model, b: Model, task: TaskId, moved: Model, freed: Option<TaskId>)
    requires
        shielded(m),
        moves(m, moved),
        rests(m, moved),
        drains(m, moved),
        moved.tasks.len() == m.tasks.len(),
        moved.leases == m.leases,
        moved.holds == m.holds,
        moved.dependencies == m.dependencies,
        b.tasks == cascade(moved, task).tasks,
        b.dependencies == cascade(moved, task).dependencies,
        frees(m, b, freed),
        one_hold_each(b),
    ensures
        lawful(m, b),
{
    cascade_frame(moved, task);
    let c = cascade(moved, task);
    waning_follows(m, moved, c);
    fading_keeps_frozen(moved, c);
    assert(moves(m, b));
    assert(rests(m, b));
    moved_tasks_stay_unique(m, b);
    resting_steps_keep(m, b, freed);
}

/// After a cascade a Task that left the queue keeps its state.
proof fn cascade_keeps_ended(m: Model, task: TaskId, moved: Model, to: TaskState)
    requires
        unique_tasks(m),
        moved.tasks.len() == m.tasks.len(),
        to != TaskState::Queued,
        forall|i: int|
            0 <= i < m.tasks.len() && (#[trigger] moved.tasks[i]).id == task ==> moved.tasks[i].state
                == to,
    ensures
        forall|i: int|
            0 <= i < m.tasks.len() && (#[trigger] cascade(moved, task).tasks[i]).id == task
                ==> cascade(moved, task).tasks[i].state == to,
{
    cascade_frame(moved, task);
    let c = cascade(moved, task);
    assert forall|i: int| 0 <= i < m.tasks.len() && (#[trigger] c.tasks[i]).id == task implies
    c.tasks[i].state == to by {
        assert(crate::ledger::cascade_laws::evolves(moved.tasks[i], c.tasks[i]));
        assert(moved.tasks[i].id == task);
    }
}

pub proof fn missing_evidence_is_lawful(m: Model, task: TaskId, expected: Seq<TaskState>)
    requires
        shielded(m),
        forall|s: TaskState| expected.contains(s) ==> active_state(s),
    ensures
        match fail_for_missing_evidence(m, task, expected) {
            Ok(next) => lawful(m, next),
            Err(_) => true,
        },
{
    if fail_for_missing_evidence(m, task, expected) is Ok {
        first_says(m.tasks, is_task(task));
        let i = first_where(m.tasks, is_task(task))->0;
        let t = m.tasks[i];
        let set = Model {
            tasks: m.tasks.update(i, TaskRow { state: TaskState::Failed, ..t }),
            ..m
        };
        let moved = record_transition(
            set,
            task,
            t.state,
            TaskState::Failed,
            TransitionReason::MissingEvidence,
        );
        record_transition_frame(
            set,
            task,
            t.state,
            TaskState::Failed,
            TransitionReason::MissingEvidence,
        );
        assert(expected.contains(t.state));
        assert(active_state(t.state));
        assert(next_state(t.state, TaskState::Failed));
        assert forall|j: int| 0 <= j < m.tasks.len() implies moves_on(
            #[trigger] m.tasks[j],
            moved.tasks[j],
        ) by {
            assert(j == i || moved.tasks[j] == m.tasks[j]);
        }
        assert forall|j: int|
            0 <= j < m.tasks.len() && (#[trigger] moved.tasks[j]).id == task implies
        moved.tasks[j].state == TaskState::Failed by {
            if j < i {
                assert(m.tasks[j].id != m.tasks[i].id);
            } else if j > i {
                assert(m.tasks[i].id != m.tasks[j].id);
            }
        }
        cascade_keeps_ended(m, task, moved, TaskState::Failed);
        cascade_frame(moved, task);
        let failed = cascade(moved, task);
        let b = fail_for_missing_evidence(m, task, expected)->Ok_0;
        new_holds_stay_single(
            failed,
            t.worktree,
            task,
            HoldReason::RepositoryObservationFailed,
        );
        if t.access == RepositoryAccess::Mutating {
            ended_task_is_lawful(m, b, task, moved, None);
        } else {
            ended_task_is_lawful(m, b, task, moved, Some(task));
        }
    }
}

proof fn turn_hold_frame(m: Model, t: TaskRow, next: TaskState, drifted: bool)
    requires
        one_hold_each(m),
    ensures
        one_hold_each(hold_for_turn(m, t, next, drifted)),
        ({
            let b = hold_for_turn(m, t, next, drifted);
            b == (Model { holds: b.holds, events: b.events, ..m })
        }),
{
    let owner = crate::ledger::settlement::turn_hold(t, next, drifted);
    if owner is Some {
        new_holds_stay_single(m, t.worktree, owner->0, HoldReason::OutOfScopeMutation);
        new_holds_stay_single(m, t.worktree, owner->0, HoldReason::NativeTurnFailed);
    }
}

pub proof fn turn_is_lawful(
    m: Model,
    actor: AuthenticatedActor,
    task: TaskId,
    turn: TextKey,
    succeeded: bool,
    message: MessageId,
)
    requires
        shielded(m),
    ensures
        match settle_turn(m, actor, task, turn, succeeded, message) {
            Ok((next, _)) => lawful(m, next),
            Err(_) => true,
        },
{
    if let Ok((b, next)) = settle_turn(m, actor, task, turn, succeeded, message) {
        first_says(m.tasks, is_task(task));
        let t = find_task(m, task)->0;
        let drifted = succeeded && crate::ledger::evidence::out_of_scope(
            m,
            task,
            ObservationCheckpoint::Result,
        )->Ok_0;
        if next == TaskState::Reviewing {
            let sealed = Model {
                results: update_where(
                    m.results,
                    crate::ledger::dependencies::is_result(t.id, t.revision),
                    |x: crate::rows::ResultRow| crate::ledger::settlement::terminal(x),
                ),
                ..m
            };
            transition_moves(sealed, t.id, t.state, TaskState::Reviewing, false);
            let moved = transition(sealed, t.id, t.state, TaskState::Reviewing, false)->Ok_0;
            turn_hold_frame(moved, t, TaskState::Reviewing, drifted);
            let stopped = hold_for_turn(moved, t, TaskState::Reviewing, drifted);
            assert(moves(m, stopped) && rests(m, stopped) && drains(m, stopped));
            if !drifted {
                satisfaction_frame(
                    stopped,
                    t.id,
                    DependencyCondition::ResultReady,
                    t.revision,
                );
                let offered = satisfy_downstream(
                    stopped,
                    t.id,
                    DependencyCondition::ResultReady,
                    t.revision,
                );
                standing_follows(m, stopped, offered);
                assert(b.tasks == offered.tasks);
            }
            moved_tasks_stay_unique(m, b);
            resting_steps_keep(m, b, None);
        } else {
            transition_moves(m, t.id, t.state, TaskState::Failed, false);
            let moved = transition(m, t.id, t.state, TaskState::Failed, false)->Ok_0;
            cascade_frame(moved, t.id);
            turn_hold_frame(cascade(moved, t.id), t, TaskState::Failed, drifted);
            ended_task_is_lawful(m, b, t.id, moved, None);
        }
    }
}

pub proof fn checkpoint_is_aside(
    m: Model,
    task: TaskId,
    checkpoint: ObservationCheckpoint,
    captured: Result<NewObservation, Refusal>,
)
    requires
        shielded(m),
    ensures
        match record_checkpoint(m, task, checkpoint, captured) {
            Ok(next) => aside(m, next) && shielded(next),
            Err(_) => true,
        },
{
    if record_checkpoint(m, task, checkpoint, captured) is Ok {
        aside_is_lawful(m, record_checkpoint(m, task, checkpoint, captured)->Ok_0);
    }
}

pub proof fn completed_turns_are_lawful(
    m: Model,
    actor: AuthenticatedActor,
    task: TaskId,
    turn: TextKey,
    succeeded: bool,
    captured: Result<NewObservation, Refusal>,
    message: MessageId,
)
    requires
        shielded(m),
    ensures
        lawful(
            m,
            record_turn_completed(m, actor, task, turn, succeeded, captured, message).0,
        ),
{
    let checkpoint = if succeeded {
        ObservationCheckpoint::Result
    } else {
        ObservationCheckpoint::Failure
    };
    aside_is_lawful(m, m);
    checkpoint_is_aside(m, task, checkpoint, captured);
    missing_evidence_is_lawful(m, task, seq![TaskState::Working, TaskState::Waiting]);
    if let Ok(seen) = record_checkpoint(m, task, checkpoint, captured) {
        aside_is_lawful(m, seen);
        turn_is_lawful(seen, actor, task, turn, succeeded, message);
    }
}

pub proof fn cancelling_is_lawful(m: Model, task: TaskId)
    requires
        shielded(m),
    ensures
        match cancel_task(m, task) {
            Ok((next, _)) => lawful(m, next),
            Err(_) => true,
        },
{
    if let Ok((b, next)) = cancel_task(m, task) {
        first_says(m.tasks, is_task(task));
        let t = find_task(m, task)->0;
        transition_moves(m, task, t.state, next, false);
        let moved = transition(m, task, t.state, next, false)->Ok_0;
        if next == TaskState::Cancelled {
            cascade_frame(moved, task);
            cascade_keeps_ended(m, task, moved, TaskState::Cancelled);
            ended_task_is_lawful(m, b, task, moved, Some(task));
        } else {
            moved_tasks_stay_unique(m, b);
            resting_steps_keep(m, b, None);
        }
    }
}

pub proof fn cancellations_are_lawful(
    m: Model,
    actor: AuthenticatedActor,
    task: TaskId,
    succeeded: bool,
    captured: Result<NewObservation, Refusal>,
)
    requires
        shielded(m),
    ensures
        lawful(m, record_cancellation_completed(m, actor, task, succeeded, captured).0),
{
    let checkpoint = if succeeded {
        ObservationCheckpoint::Cancel
    } else {
        ObservationCheckpoint::Failure
    };
    aside_is_lawful(m, m);
    checkpoint_is_aside(m, task, checkpoint, captured);
    missing_evidence_is_lawful(m, task, seq![TaskState::Cancelling]);
    if let Ok(seen) = record_checkpoint(m, task, checkpoint, captured) {
        aside_is_lawful(m, seen);
        if let Ok((b, next)) = settle_cancellation(seen, task, succeeded) {
            first_says(seen.tasks, is_task(task));
            let t = find_task(seen, task)->0;
            transition_moves(seen, task, TaskState::Cancelling, next, false);
            let moved = transition(seen, task, TaskState::Cancelling, next, false)->Ok_0;
            cascade_frame(moved, task);
            cascade_keeps_ended(seen, task, moved, next);
            let stopped = cascade(moved, task);
            let reason = if succeeded {
                HoldReason::CancelledAfterDispatch
            } else {
                HoldReason::CancellationFailed
            };
            if t.access == RepositoryAccess::Mutating {
                assert(!held(stopped, t.worktree));
                new_holds_stay_single(stopped, t.worktree, task, reason);
                ended_task_is_lawful(seen, b, task, moved, None);
            } else {
                ended_task_is_lawful(seen, b, task, moved, Some(task));
            }
        }
    }
}

pub proof fn holding_is_lawful(m: Model, task: TaskId, reason: HoldReason)
    requires
        shielded(m),
    ensures
        match hold_repository(m, task, reason) {
            Ok(next) => lawful(m, next),
            Err(_) => true,
        },
{
    if let Ok(b) = hold_repository(m, task, reason) {
        let t = find_task(m, task)->0;
        let owner = crate::ledger::evidence::answerable(t)->0;
        new_holds_stay_single(m, t.worktree, owner, reason);
        let stopped = if held(m, t.worktree) {
            m
        } else {
            crate::ledger::evidence::announce_hold(
                add_hold(m, t.worktree, owner, reason),
                owner,
                EventOrigin::Hold { task: owner, reason },
            )
        };
        assert forall|i: int| 0 <= i < m.tasks.len() implies moves_on(
            #[trigger] m.tasks[i],
            stopped.tasks[i],
        ) by {}
        revocation_frame(stopped, task);
        standing_follows(m, stopped, revoke(stopped, task));
        assert(b == stopped || b == revoke(stopped, task));
        moved_tasks_stay_unique(m, b);
        resting_steps_keep(m, b, None);
    }
}

pub proof fn observing_is_lawful(
    m: Model,
    actor: AuthenticatedActor,
    task: TaskId,
    checkpoint: ObservationCheckpoint,
    captured: Result<NewObservation, Refusal>,
)
    requires
        shielded(m),
    ensures
        lawful(m, observe_repository(m, actor, task, checkpoint, captured).0),
{
    aside_is_lawful(m, m);
    checkpoint_is_aside(m, task, checkpoint, captured);
    holding_is_lawful(m, task, HoldReason::RepositoryCheckpointFailed);
    if let Ok(seen) = record_checkpoint(m, task, checkpoint, captured) {
        aside_is_lawful(m, seen);
    }
}

pub proof fn approving_is_lawful(
    m: Model,
    task: TaskId,
    revision: u32,
    digest: Seq<char>,
    key: TextKey,
    drift: Option<Refusal>,
)
    requires
        shielded(m),
    ensures
        lawful(m, approve_task(m, task, revision, digest, key, drift).0),
{
    aside_is_lawful(m, m);
    holding_is_lawful(m, task, HoldReason::OutOfScopeApprovalDrift);
    let (b, r) = approve_task(m, task, revision, digest, key, drift);
    if r is Ok {
        first_says(m.tasks, is_task(task));
        let i = first_where(m.tasks, is_task(task))->0;
        let set = Model {
            tasks: m.tasks.update(
                i,
                TaskRow {
                    state: TaskState::Approved,
                    approved_revision: Some(revision),
                    approval: crate::ledger::evidence::digested(
                        m,
                        task,
                        ObservationCheckpoint::Approval,
                        key,
                    ),
                    ..m.tasks[i]
                },
            ),
            ..m
        };
        record_transition_frame(
            set,
            task,
            TaskState::Reviewing,
            TaskState::Approved,
            TransitionReason::Plain,
        );
        let moved = record_transition(
            set,
            task,
            TaskState::Reviewing,
            TaskState::Approved,
            TransitionReason::Plain,
        );
        assert(moves(m, moved) && rests(m, moved) && drains(m, moved));
        satisfaction_frame(moved, task, DependencyCondition::Approved, revision);
        let offered = satisfy_downstream(moved, task, DependencyCondition::Approved, revision);
        standing_follows(m, moved, offered);
        process_events_frame(
            offered,
            SupervisorEventKind::ResultReady,
            task,
            Some(revision),
            offered.events.len(),
        );
        assert(b.tasks == offered.tasks);
        assert(frees(m, b, Some(task))) by {
            assert forall|j: int| 0 <= j < b.tasks.len() && (#[trigger] b.tasks[j]).id == task
                implies !writes(b.tasks[j]) by {
                let t = TaskRow { scheduling: moved.tasks[j].scheduling, ..b.tasks[j] };
                assert(t == moved.tasks[j]);
                assert(m.tasks[j].id == task);
                if j < i {
                    assert(m.tasks[j].id != m.tasks[i].id);
                } else if j > i {
                    assert(m.tasks[i].id != m.tasks[j].id);
                }
            }
        }
        moved_tasks_stay_unique(m, b);
        resting_steps_keep(m, b, Some(task));
    }
}

// ---------------------------------------------------------------------------------------------
// Messages
// ---------------------------------------------------------------------------------------------

pub proof fn sending_is_lawful(
    m: Model,
    actor: AuthenticatedActor,
    q: KeyedRequest,
    new: NewMessage,
    attachments: Seq<AttachmentId>,
)
    requires
        shielded(m),
    ensures
        match send_message(m, actor, q, new, attachments) {
            Ok((next, _)) => lawful(m, next),
            Err(_) => true,
        },
{
    if let Ok((b, _)) = send_message(m, actor, q, new, attachments) {
        if b == m {
            aside_is_lawful(m, m);
        } else {
            let sent = posted(m, actor, new);
            match (new.kind, new.task) {
                (MessageKind::Question, Some(id)) => {
                    first_says(m.tasks, is_task(id));
                    let i = first_where(m.tasks, is_task(id))->0;
                    let set = Model {
                        tasks: sent.tasks.update(
                            i,
                            TaskRow { state: TaskState::Waiting, ..sent.tasks[i] },
                        ),
                        ..sent
                    };
                    record_transition_frame(
                        set,
                        id,
                        TaskState::Working,
                        TaskState::Waiting,
                        TransitionReason::Plain,
                    );
                    assert(m.tasks[i].state == TaskState::Working);
                    assert(b.tasks == set.tasks);
                    assert(moves(m, b) && rests(m, b));
                    moved_tasks_stay_unique(m, b);
                    resting_steps_keep(m, b, None);
                },
                (MessageKind::Reply, Some(id)) => {
                    process_events_frame(
                        sent,
                        SupervisorEventKind::BlockingQuestion,
                        id,
                        None,
                        sent.events.len(),
                    );
                    aside_is_lawful(m, b);
                },
                (MessageKind::Correction, Some(id)) => {
                    process_events_frame(
                        sent,
                        SupervisorEventKind::ResultReady,
                        id,
                        None,
                        sent.events.len(),
                    );
                    aside_is_lawful(m, b);
                },
                _ => {
                    aside_is_lawful(m, b);
                },
            }
        }
    }
}

pub proof fn accepting_is_lawful(
    m: Model,
    actor: AuthenticatedActor,
    id: MessageId,
    correlation: Seq<char>,
    key: TextKey,
)
    requires
        shielded(m),
    ensures
        match accept_delivery(m, actor, id, correlation, key) {
            Ok(next) => lawful(m, next),
            Err(_) => true,
        },
{
    if let Ok(b) = accept_delivery(m, actor, id, correlation, key) {
        let k = crate::select::last_where(m.attempts, crate::ledger::is_attempt_of(id))->0;
        let accepted = crate::rows::AttemptRow {
            state: crate::rows::AttemptState::Accepted,
            wrote: true,
            correlation: Some(key),
            ..m.attempts[k]
        };
        let seen = Model { attempts: m.attempts.update(k, accepted), ..m };
        let message = m.messages[first_where(m.messages, crate::ledger::is_message(id))->0];
        assert(resume(seen, message) == Ok::<Model, Refusal>(b));
        match (message.kind, message.task) {
            (crate::rows::StoredMessageKind::Task, Some(task)) => {
                transition_moves(seen, task, TaskState::Dispatching, TaskState::Working, false);
                moved_tasks_stay_unique(m, b);
                resting_steps_keep(m, b, None);
            },
            (crate::rows::StoredMessageKind::Reply, Some(task)) => {
                transition_moves(seen, task, TaskState::Waiting, TaskState::Working, false);
                moved_tasks_stay_unique(m, b);
                resting_steps_keep(m, b, None);
            },
            (crate::rows::StoredMessageKind::Correction, Some(task)) => {
                transition_moves(seen, task, TaskState::Reviewing, TaskState::Working, true);
                let moved = transition(
                    seen,
                    task,
                    TaskState::Reviewing,
                    TaskState::Working,
                    true,
                )->Ok_0;
                revocation_frame(moved, task);
                standing_follows(m, moved, b);
                moved_tasks_stay_unique(m, b);
                resting_steps_keep(m, b, None);
            },
            _ => {
                aside_is_lawful(m, b);
            },
        }
    }
}

// ---------------------------------------------------------------------------------------------
// Doubt and reconciliation
// ---------------------------------------------------------------------------------------------

pub proof fn doubting_is_lawful(
    m: Model,
    actor: AuthenticatedActor,
    id: MessageId,
    diagnostic: Seq<char>,
    why: Wording,
)
    requires
        shielded(m),
    ensures
        match mark_delivery_unknown(m, actor, id, diagnostic, why) {
            Ok((next, _)) => lawful(m, next),
            Err(_) => true,
        },
{
    if let Ok((b, task)) = mark_delivery_unknown(m, actor, id, diagnostic, why) {
        first_says(m.tasks, is_task(task));
        let t = find_task(m, task)->0;
        let marked = doubted(m, id, why);
        assert(aside(m, marked));
        transition_moves(
            marked,
            task,
            TaskState::Dispatching,
            TaskState::DeliveryUnknown,
            false,
        );
        let moved = transition(
            marked,
            task,
            TaskState::Dispatching,
            TaskState::DeliveryUnknown,
            false,
        )->Ok_0;
        new_holds_stay_single(moved, t.worktree, task, HoldReason::DeliveryUnknown);
        assert(b.tasks == moved.tasks);
        assert(one_hold_each(b));
        moved_tasks_stay_unique(m, b);
        resting_steps_keep(m, b, None);
    }
}

proof fn clearing_keeps_single(
    m: Model,
    task: TaskId,
    observation: RepositoryObservationId,
    note_key: TextKey,
)
    requires
        one_hold_each(m),
    ensures
        one_hold_each(clear_holds(m, task, observation, note_key)),
{
    let b = clear_holds(m, task, observation, note_key);
    assert forall|i: int, j: int|
        0 <= i < b.holds.len() && 0 <= j < b.holds.len() && i != j && !(
        #[trigger] b.holds[i]).cleared && !(#[trigger] b.holds[j]).cleared implies
    b.holds[i].worktree != b.holds[j].worktree by {
        assert(b.holds[i] == m.holds[i] && b.holds[j] == m.holds[j]);
    }
}

pub proof fn resolving_is_lawful(
    m: Model,
    task: TaskId,
    resolution: DeliveryUnknownResolution,
    digest: Seq<char>,
    key: TextKey,
    note: Seq<char>,
    note_key: TextKey,
    drift: Option<Refusal>,
)
    requires
        shielded(m),
    ensures
        match resolve_delivery_unknown(m, task, resolution, digest, key, note, note_key, drift) {
            Ok((next, _)) => lawful(m, next),
            Err(_) => true,
        },
{
    if let Ok((b, next)) = resolve_delivery_unknown(
        m,
        task,
        resolution,
        digest,
        key,
        note,
        note_key,
        drift,
    ) {
        first_says(m.tasks, is_task(task));
        let t = find_task(m, task)->0;
        let observation = crate::ledger::evidence::digested(
            m,
            task,
            ObservationCheckpoint::HoldClear,
            key,
        )->0;
        transition_moves(m, task, TaskState::DeliveryUnknown, next, false);
        let moved = transition(m, task, TaskState::DeliveryUnknown, next, false)->Ok_0;
        if next == TaskState::Cancelled {
            cascade_frame(moved, task);
            cascade_keeps_ended(m, task, moved, TaskState::Cancelled);
            clearing_keeps_single(cascade(moved, task), task, observation, note_key);
            ended_task_is_lawful(m, b, task, moved, Some(task));
        } else {
            clearing_keeps_single(moved, task, observation, note_key);
            moved_tasks_stay_unique(m, b);
            if t.access == RepositoryAccess::ReadOnly {
                assert(frees(m, b, Some(task)));
                resting_steps_keep(m, b, Some(task));
            } else {
                resting_steps_keep(m, b, None);
            }
        }
    }
}

pub proof fn clearing_is_lawful(
    m: Model,
    task: TaskId,
    digest: Seq<char>,
    key: TextKey,
    note: Seq<char>,
    note_key: TextKey,
    drift: Option<Refusal>,
)
    requires
        shielded(m),
    ensures
        match clear_worktree_hold(m, task, digest, key, note, note_key, drift) {
            Ok(next) => lawful(m, next),
            Err(_) => true,
        },
{
    if let Ok(b) = clear_worktree_hold(m, task, digest, key, note, note_key, drift) {
        first_says(m.tasks, is_task(task));
        let i = first_where(m.tasks, is_task(task))->0;
        let t = m.tasks[i];
        let observation = crate::ledger::evidence::digested(
            m,
            task,
            ObservationCheckpoint::HoldClear,
            key,
        )->0;
        clearing_keeps_single(m, task, observation, note_key);
        let cleared = clear_holds(m, task, observation, note_key);
        assert(moves(m, cleared) && rests(m, cleared) && drains(m, cleared)) by {
            assert forall|j: int| 0 <= j < m.tasks.len() implies moves_on(
                #[trigger] m.tasks[j],
                cleared.tasks[j],
            ) by {}
        }
        if t.state == TaskState::Reviewing {
            satisfaction_frame(cleared, task, DependencyCondition::ResultReady, t.revision);
            standing_follows(m, cleared, b);
            moved_tasks_stay_unique(m, b);
            resting_steps_keep(m, b, None);
        } else {
            assert forall|j: int| 0 <= j < b.tasks.len() && (#[trigger] b.tasks[j]).id == task
                implies !writes(b.tasks[j]) by {
                if j < i {
                    assert(m.tasks[j].id != m.tasks[i].id);
                } else if j > i {
                    assert(m.tasks[i].id != m.tasks[j].id);
                }
            }
            resting_steps_keep(m, b, Some(task));
        }
    }
}

} // verus!

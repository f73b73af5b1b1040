//! Settlement of Tasks: completed turns, cancellation and approval.
use vstd::prelude::*;

use crate::contract::{
    DeliveryIntent, DependencyCondition, HarnessTier, ObservationCheckpoint, RepositoryAccess,
    SupervisorEventKind, TaskState,
};
use crate::digest::{digest_shaped, not_a_digest, validate_digest};
use crate::error::{outcome, refusal, refuse, CoordinatorError, ErrorCategory, Refusal};
use crate::identity::{MessageId, TaskId};
use crate::ledger::cascade::cascade;
use crate::ledger::dependencies::is_result;
use crate::ledger::dispatch::optional_refusal;
use crate::ledger::evidence::{
    announce_hold, assignment_refusal, concludes, currency_refusal, digested,
    fail_for_missing_evidence, hold_repository, no_such_task, out_of_scope, record_checkpoint,
    NewObservation,
};
use crate::ledger::propagation::satisfy_downstream;
use crate::ledger::steps::{
    add_attempt, add_hold, held_already, must_be, process_matching_events, push_hold, refuse_state,
    release_lease, transition,
};
use crate::ledger::{
    active_state, find_task, held, insert_event, is_active_state, is_message, is_task,
    latest_session, record_transition, record_transition_frame, settles, Ledger, Model,
};
use crate::rows::{
    AttemptState, AuthenticatedActor, EventOrigin, HarnessKey, HarnessRow, HoldReason, MessageRow,
    ResultRow, StoredMessageKind, TaskRow, TextKey, TransitionReason, Wording,
};
use crate::select::{first_found, first_missing, first_says, first_where, some_where, update_where};

verus! {

// ---------------------------------------------------------------------------------------------
// Completed turns
// ---------------------------------------------------------------------------------------------

/// The refusal of a storage lookup that has to find a row.
pub open spec fn row_missing() -> Refusal {
    refusal(
        ErrorCategory::StorageFailure,
        "no rows returned by a query that expected to return at least one row"@,
    )
}

pub fn refuse_missing_row() -> (r: CoordinatorError)
    ensures
        r@ == row_missing(),
{
    refuse(
        ErrorCategory::StorageFailure,
        "no rows returned by a query that expected to return at least one row",
    )
}

pub open spec fn is_supervisor() -> spec_fn(HarnessRow) -> bool {
    |h: HarnessRow| h.tier == HarnessTier::Supervisor
}

/// The Supervisor that Results are addressed to.
pub open spec fn supervisor(m: Model) -> Option<HarnessKey> {
    match first_where(m.harnesses, is_supervisor()) {
        Some(i) => Some(m.harnesses[i].key),
        None => None,
    }
}

/// A Result of a revision recorded in a native turn.
pub open spec fn is_result_of_turn(task: TaskId, revision: u32, turn: TextKey) -> spec_fn(
    ResultRow,
) -> bool {
    |x: ResultRow| x.task == task && x.revision == revision && x.turn == turn
}

pub open spec fn terminal(x: ResultRow) -> ResultRow {
    ResultRow { terminal: true, ..x }
}

/// The Result of a revision recorded in a native turn.
pub open spec fn result_of_turn(m: Model, t: TaskRow, turn: TextKey) -> Option<ResultRow> {
    match first_where(m.results, is_result_of_turn(t.id, t.revision, turn)) {
        Some(i) => Some(m.results[i]),
        None => None,
    }
}

/// Where a completed turn takes its Task: to review with a Result of that turn, else to failure.
pub open spec fn turn_end(m: Model, t: TaskRow, turn: TextKey, succeeded: bool) -> TaskState {
    if succeeded && some_where(m.results, is_result_of_turn(t.id, t.revision, turn)) {
        TaskState::Reviewing
    } else {
        TaskState::Failed
    }
}

/// Why a completed turn is refused.
pub open spec fn turn_refusal(
    m: Model,
    t: TaskRow,
    next: TaskState,
    message: MessageId,
) -> Option<Refusal> {
    if t.state != TaskState::Working && t.state != TaskState::Waiting {
        Some(refusal(ErrorCategory::InvalidState, "Task must be working or waiting"@))
    } else if next == TaskState::Reviewing && supervisor(m) is None {
        Some(row_missing())
    } else if next == TaskState::Reviewing && first_where(m.messages, is_message(message)) is Some {
        Some(refusal(ErrorCategory::StorageFailure, "identity is already in use"@))
    } else {
        None
    }
}

/// The Task whose Hold follows from a completed turn.
pub open spec fn turn_hold(t: TaskRow, next: TaskState, drifted: bool) -> Option<TaskId> {
    if next != TaskState::Failed && !drifted {
        None
    } else if t.access == RepositoryAccess::Mutating {
        Some(t.id)
    } else if drifted {
        t.related
    } else {
        None
    }
}

/// A Hold that follows from a completed turn, with its notice.
pub open spec fn hold_for_turn(m: Model, t: TaskRow, next: TaskState, drifted: bool) -> Model {
    match turn_hold(t, next, drifted) {
        None => m,
        Some(owner) => announce_hold(
            add_hold(
                m,
                t.worktree,
                owner,
                if drifted {
                    HoldReason::OutOfScopeMutation
                } else {
                    HoldReason::NativeTurnFailed
                },
            ),
            owner,
            EventOrigin::TurnSettlementHold { task: owner },
        ),
    }
}

/// The Result of a Task brought to the Supervisor: the Message is its manifest, and the event says
/// its summary.
pub open spec fn report_result(
    m: Model,
    actor: AuthenticatedActor,
    t: TaskRow,
    message: MessageId,
    result: ResultRow,
) -> Model {
    let to = supervisor(m)->0;
    insert_event(
        add_attempt(
            Model {
                messages: m.messages.push(
                    MessageRow {
                        id: message,
                        task: Some(t.id),
                        sender: actor.id,
                        recipient: to,
                        kind: StoredMessageKind::Result,
                        reply_to: None,
                        intent: DeliveryIntent::FollowUp,
                        body: result.manifest,
                    },
                ),
                ..m
            },
            message,
            latest_session(m, to),
            AttemptState::Pending,
        ),
        SupervisorEventKind::ResultReady,
        Some(t.id),
        Some(t.revision),
        Some(message),
        EventOrigin::Result { task: t.id, revision: t.revision },
        DeliveryIntent::FollowUp,
        Some(Wording::Given { text: result.summary }),
    )
}

/// A Task moved to review: its Result is final, Tasks that wait for it may start unless the
/// repository drifted, and the Supervisor is told.
pub open spec fn reviewed(
    m: Model,
    actor: AuthenticatedActor,
    t: TaskRow,
    drifted: bool,
    message: MessageId,
    result: ResultRow,
) -> Model {
    let sealed = Model {
        results: update_where(m.results, is_result(t.id, t.revision), |x: ResultRow| terminal(x)),
        ..m
    };
    let moved = transition(sealed, t.id, t.state, TaskState::Reviewing, false)->Ok_0;
    let stopped = hold_for_turn(moved, t, TaskState::Reviewing, drifted);
    let offered = if drifted {
        stopped
    } else {
        satisfy_downstream(stopped, t.id, DependencyCondition::ResultReady, t.revision)
    };
    report_result(offered, actor, t, message, result)
}

/// A Task failed at the end of its turn.
pub open spec fn turn_failed(m: Model, t: TaskRow, drifted: bool) -> Model {
    let moved = transition(m, t.id, t.state, TaskState::Failed, false)->Ok_0;
    hold_for_turn(cascade(moved, t.id), t, TaskState::Failed, drifted)
}

/// The settlement of a turn whose evidence is recorded.
pub open spec fn settle_turn(
    m: Model,
    actor: AuthenticatedActor,
    task: TaskId,
    turn: TextKey,
    succeeded: bool,
    message: MessageId,
) -> Result<(Model, TaskState), Refusal> {
    let drift = if succeeded {
        out_of_scope(m, task, ObservationCheckpoint::Result)
    } else {
        Ok(false)
    };
    match drift {
        Err(e) => Err(e),
        Ok(drifted) => match find_task(m, task) {
            None => Err(no_such_task()),
            Some(t) => {
                let next = turn_end(m, t, turn, succeeded);
                if turn_refusal(m, t, next, message) is Some {
                    Err(turn_refusal(m, t, next, message)->0)
                } else if next == TaskState::Reviewing {
                    Ok(
                        (
                            reviewed(
                                m,
                                actor,
                                t,
                                drifted,
                                message,
                                result_of_turn(m, t, turn)->0,
                            ),
                            next,
                        ),
                    )
                } else {
                    Ok((turn_failed(m, t, drifted), next))
                }
            },
        },
    }
}

/// A completed turn: the repository is observed first, and a Task whose evidence cannot be had
/// fails; otherwise the turn is settled.
pub open spec fn record_turn_completed(
    m: Model,
    actor: AuthenticatedActor,
    task: TaskId,
    turn: TextKey,
    succeeded: bool,
    captured: Result<NewObservation, Refusal>,
    message: MessageId,
) -> (Model, Result<TaskState, Refusal>) {
    let checkpoint = if succeeded {
        ObservationCheckpoint::Result
    } else {
        ObservationCheckpoint::Failure
    };
    if assignment_refusal(m, actor, task) is Some {
        (m, Err(assignment_refusal(m, actor, task)->0))
    } else {
        match record_checkpoint(m, task, checkpoint, captured) {
            Err(_) => match fail_for_missing_evidence(
                m,
                task,
                seq![TaskState::Working, TaskState::Waiting],
            ) {
                Ok(next) => (next, Ok(TaskState::Failed)),
                Err(e) => (m, Err(e)),
            },
            Ok(seen) => match settle_turn(seen, actor, task, turn, succeeded, message) {
                Ok((next, state)) => (next, Ok(state)),
                Err(e) => (seen, Err(e)),
            },
        }
    }
}

impl Ledger {
    /// The Supervisor that Results are addressed to.
    pub fn supervisor(&self) -> (r: Option<HarnessKey>)
        ensures
            r == supervisor(self@),
    {
        let mut i: usize = 0;
        while i < self.harnesses.len()
            invariant
                i <= self.harnesses.len(),
                forall|j: int| 0 <= j < i ==> !is_supervisor()(#[trigger] self.harnesses@[j]),
            decreases self.harnesses.len() - i,
        {
            if self.harnesses[i].tier == HarnessTier::Supervisor {
                proof {
                    first_found(self@.harnesses, is_supervisor(), i as int);
                }
                return Some(self.harnesses[i].key);
            }
            i += 1;
        }
        proof {
            first_missing(self@.harnesses, is_supervisor());
        }
        None
    }

    fn result_of_turn(&self, t: TaskRow, turn: TextKey) -> (r: Option<ResultRow>)
        ensures
            r == result_of_turn(self@, t, turn),
            r is Some == some_where(self@.results, is_result_of_turn(t.id, t.revision, turn)),
    {
        let task = t.id;
        let revision = t.revision;
        let mut i: usize = 0;
        while i < self.results.len()
            invariant
                i <= self.results.len(),
                task == t.id,
                revision == t.revision,
                forall|j: int|
                    0 <= j < i ==> !is_result_of_turn(task, revision, turn)(
                        #[trigger] self.results@[j],
                    ),
            decreases self.results.len() - i,
        {
            let x = self.results[i];
            if x.task == task && x.revision == revision && x.turn == turn {
                proof {
                    first_found(
                        self@.results,
                        is_result_of_turn(task, revision, turn),
                        i as int,
                    );
                    assert(is_result_of_turn(task, revision, turn)(self@.results[i as int]));
                }
                return Some(x);
            }
            i += 1;
        }
        proof {
            first_missing(self@.results, is_result_of_turn(task, revision, turn));
        }
        None
    }

    fn seal_results(&mut self, task: TaskId, revision: u32)
        ensures
            final(self)@ == (Model {
                results: update_where(
                    old(self)@.results,
                    is_result(task, revision),
                    |x: ResultRow| terminal(x),
                ),
                ..old(self)@
            }),
    {
        let n = self.results.len();
        let mut i: usize = 0;
        while i < n
            invariant
                i <= n,
                n == self.results.len(),
                n == old(self).results.len(),
                self@ == (Model { results: self.results@, ..old(self)@ }),
                forall|j: int|
                    0 <= j < i ==> #[trigger] self.results@[j] == (if is_result(task, revision)(
                        old(self).results@[j],
                    ) {
                        terminal(old(self).results@[j])
                    } else {
                        old(self).results@[j]
                    }),
                forall|j: int| i <= j < n ==> #[trigger] self.results@[j] == old(self).results@[j],
            decreases n - i,
        {
            let x = self.results[i];
            if x.task == task && x.revision == revision {
                self.results.set(i, ResultRow { terminal: true, ..x });
            }
            i += 1;
        }
        assert(self.results@ =~= update_where(
            old(self).results@,
            is_result(task, revision),
            |x: ResultRow| terminal(x),
        ));
    }

    fn hold_for_turn(&mut self, t: TaskRow, next: TaskState, drifted: bool)
        ensures
            final(self)@ == hold_for_turn(old(self)@, t, next, drifted),
    {
        let owner = if next != TaskState::Failed && !drifted {
            None
        } else if t.access == RepositoryAccess::Mutating {
            Some(t.id)
        } else if drifted {
            t.related
        } else {
            None
        };
        if let Some(owner) = owner {
            let reason = if drifted {
                HoldReason::OutOfScopeMutation
            } else {
                HoldReason::NativeTurnFailed
            };
            let _ = self.add_hold(t.worktree, owner, reason);
            self.announce_hold(owner, EventOrigin::TurnSettlementHold { task: owner });
        }
    }

    fn report_result(
        &mut self,
        actor: AuthenticatedActor,
        t: TaskRow,
        message: MessageId,
        result: ResultRow,
        to: HarnessKey,
    )
        requires
            supervisor(old(self)@) == Some(to),
        ensures
            final(self)@ == report_result(old(self)@, actor, t, message, result),
    {
        let session = self.latest_session(to);
        self.messages.push(
            MessageRow {
                id: message,
                task: Some(t.id),
                sender: actor.id,
                recipient: to,
                kind: StoredMessageKind::Result,
                reply_to: None,
                intent: DeliveryIntent::FollowUp,
                body: result.manifest,
            },
        );
        self.add_attempt(message, session, AttemptState::Pending);
        self.insert_event(
            SupervisorEventKind::ResultReady,
            Some(t.id),
            Some(t.revision),
            Some(message),
            EventOrigin::Result { task: t.id, revision: t.revision },
            DeliveryIntent::FollowUp,
            Some(Wording::Given { text: result.summary }),
        );
    }
}

impl Ledger {
    fn settle_turn(
        &mut self,
        actor: AuthenticatedActor,
        task: TaskId,
        turn: TextKey,
        succeeded: bool,
        message: MessageId,
    ) -> (r: Result<TaskState, CoordinatorError>)
        ensures
            settles(
                r,
                old(self)@,
                final(self)@,
                settle_turn(old(self)@, actor, task, turn, succeeded, message),
            ),
    {
        let drifted = if succeeded {
            match self.checkpoint_has_out_of_scope(task, ObservationCheckpoint::Result) {
                Err(e) => {
                    return Err(e);
                },
                Ok(drifted) => drifted,
            }
        } else {
            false
        };
        let t = match self.task(task) {
            None => {
                return Err(refuse(ErrorCategory::NotFound, "Task does not exist"));
            },
            Some(t) => t,
        };
        proof {
            first_says(self@.tasks, is_task(task));
        }
        let recorded = if succeeded {
            self.result_of_turn(t, turn)
        } else {
            None
        };
        if t.state != TaskState::Working && t.state != TaskState::Waiting {
            return Err(refuse(ErrorCategory::InvalidState, "Task must be working or waiting"));
        }
        if let Some(result) = recorded {
            let to = match self.supervisor() {
                None => {
                    return Err(refuse_missing_row());
                },
                Some(to) => to,
            };
            if self.message_position(message).is_some() {
                return Err(refuse(ErrorCategory::StorageFailure, "identity is already in use"));
            }
            self.seal_results(t.id, t.revision);
            let ghost sealed = self@;
            match self.transition_exact(t.id, t.state, TaskState::Reviewing, false) {
                Err(e) => {
                    assert(t.id == task);
                    assert(false);
                    return Err(e);
                },
                Ok(_) => {},
            }
            proof {
                let i = first_where(sealed.tasks, is_task(task))->0;
                record_transition_frame(
                    Model {
                        tasks: sealed.tasks.update(
                            i,
                            TaskRow { state: TaskState::Reviewing, ..sealed.tasks[i] },
                        ),
                        ..sealed
                    },
                    task,
                    t.state,
                    TaskState::Reviewing,
                    TransitionReason::Plain,
                );
            }
            self.hold_for_turn(t, TaskState::Reviewing, drifted);
            if !drifted {
                self.satisfy_downstream_dependencies(
                    t.id,
                    DependencyCondition::ResultReady,
                    t.revision,
                );
            }
            assert(self@.harnesses == old(self)@.harnesses);
            self.report_result(actor, t, message, result, to);
            Ok(TaskState::Reviewing)
        } else {
            match self.transition_exact(t.id, t.state, TaskState::Failed, false) {
                Err(e) => {
                    assert(false);
                    return Err(e);
                },
                Ok(_) => {},
            }
            self.cascade_failed_dependencies(t.id);
            self.hold_for_turn(t, TaskState::Failed, drifted);
            Ok(TaskState::Failed)
        }
    }

    /// Records the end of a native turn.
    pub fn record_turn_completed(
        &mut self,
        actor: AuthenticatedActor,
        task: TaskId,
        turn: TextKey,
        succeeded: bool,
        captured: Result<NewObservation, CoordinatorError>,
        message: MessageId,
    ) -> (r: Result<TaskState, CoordinatorError>)
        ensures
            concludes(
                r,
                final(self)@,
                record_turn_completed(
                    old(self)@,
                    actor,
                    task,
                    turn,
                    succeeded,
                    outcome(captured),
                    message,
                ),
            ),
    {
        match self.require_assigned_worker(actor, task) {
            Err(e) => {
                return Err(e);
            },
            Ok(_) => {},
        }
        let checkpoint = if succeeded {
            ObservationCheckpoint::Result
        } else {
            ObservationCheckpoint::Failure
        };
        match self.capture_repository_checkpoint(task, checkpoint, captured) {
            Err(_) => {
                let expected = [TaskState::Working, TaskState::Waiting];
                assert(expected@ =~= seq![TaskState::Working, TaskState::Waiting]);
                match self.fail_task_for_missing_evidence(task, &expected) {
                    Err(e) => Err(e),
                    Ok(_) => Ok(TaskState::Failed),
                }
            },
            Ok(_) => self.settle_turn(actor, task, turn, succeeded, message),
        }
    }
}

// ---------------------------------------------------------------------------------------------
// Cancellation
// ---------------------------------------------------------------------------------------------

/// Where a cancellation takes a Task: one that waits in line is cancelled at once, running work is
/// asked to stop, and everything else cannot be cancelled.
pub open spec fn cancelled_to(state: TaskState) -> Option<TaskState> {
    match state {
        TaskState::Queued => Some(TaskState::Cancelled),
        TaskState::Dispatching | TaskState::Working | TaskState::Waiting | TaskState::Reviewing
        | TaskState::DeliveryUnknown => Some(TaskState::Cancelling),
        _ => None,
    }
}

/// A request to cancel a Task.
pub open spec fn cancel_task(m: Model, task: TaskId) -> Result<(Model, TaskState), Refusal> {
    match find_task(m, task) {
        None => Err(no_such_task()),
        Some(t) => match cancelled_to(t.state) {
            None => Err(
                refusal(
                    ErrorCategory::InvalidState,
                    "Task cannot be cancelled from its current state"@,
                ),
            ),
            Some(next) => {
                let moved = transition(m, task, t.state, next, false)->Ok_0;
                if next == TaskState::Cancelled {
                    Ok((release_lease(cascade(moved, task), task), next))
                } else {
                    Ok((moved, next))
                }
            },
        },
    }
}

/// The settlement of a cancellation whose evidence is recorded.
pub open spec fn settle_cancellation(m: Model, task: TaskId, succeeded: bool) -> Result<
    (Model, TaskState),
    Refusal,
> {
    match find_task(m, task) {
        None => Err(no_such_task()),
        Some(t) => {
            let next = if succeeded {
                TaskState::Cancelled
            } else {
                TaskState::Failed
            };
            let reason = if succeeded {
                HoldReason::CancelledAfterDispatch
            } else {
                HoldReason::CancellationFailed
            };
            if t.state != TaskState::Cancelling {
                Err(must_be(TaskState::Cancelling))
            } else if t.access == RepositoryAccess::Mutating && held(m, t.worktree) {
                Err(held_already())
            } else {
                let stopped = cascade(
                    transition(m, task, TaskState::Cancelling, next, false)->Ok_0,
                    task,
                );
                if t.access == RepositoryAccess::Mutating {
                    Ok(
                        (
                            announce_hold(
                                push_hold(stopped, t.worktree, task, reason),
                                task,
                                EventOrigin::Hold { task, reason },
                            ),
                            next,
                        ),
                    )
                } else {
                    Ok((release_lease(stopped, task), next))
                }
            }
        },
    }
}

/// The end of a cancellation: the repository is observed first, and a Task whose evidence cannot be
/// had fails; otherwise the cancellation is settled.
pub open spec fn record_cancellation_completed(
    m: Model,
    actor: AuthenticatedActor,
    task: TaskId,
    succeeded: bool,
    captured: Result<NewObservation, Refusal>,
) -> (Model, Result<TaskState, Refusal>) {
    let checkpoint = if succeeded {
        ObservationCheckpoint::Cancel
    } else {
        ObservationCheckpoint::Failure
    };
    if assignment_refusal(m, actor, task) is Some {
        (m, Err(assignment_refusal(m, actor, task)->0))
    } else {
        match record_checkpoint(m, task, checkpoint, captured) {
            Err(_) => match fail_for_missing_evidence(m, task, seq![TaskState::Cancelling]) {
                Ok(next) => (next, Ok(TaskState::Failed)),
                Err(e) => (m, Err(e)),
            },
            Ok(seen) => match settle_cancellation(seen, task, succeeded) {
                Ok((next, state)) => (next, Ok(state)),
                Err(e) => (seen, Err(e)),
            },
        }
    }
}

impl Ledger {
    /// Asks for the cancellation of a Task.
    pub fn cancel_task(&mut self, task: TaskId) -> (r: Result<TaskState, CoordinatorError>)
        ensures
            settles(r, old(self)@, final(self)@, cancel_task(old(self)@, task)),
    {
        let t = match self.task(task) {
            None => {
                return Err(refuse(ErrorCategory::NotFound, "Task does not exist"));
            },
            Some(t) => t,
        };
        let next = match t.state {
            TaskState::Queued => TaskState::Cancelled,
            TaskState::Dispatching
            | TaskState::Working
            | TaskState::Waiting
            | TaskState::Reviewing
            | TaskState::DeliveryUnknown => TaskState::Cancelling,
            _ => {
                return Err(
                    refuse(
                        ErrorCategory::InvalidState,
                        "Task cannot be cancelled from its current state",
                    ),
                );
            },
        };
        match self.transition_exact(task, t.state, next, false) {
            Err(e) => {
                assert(false);
                return Err(e);
            },
            Ok(_) => {},
        }
        if next == TaskState::Cancelled {
            self.cascade_failed_dependencies(task);
            self.release_lease(task);
        }
        Ok(next)
    }

    fn settle_cancellation(&mut self, task: TaskId, succeeded: bool) -> (r: Result<
        TaskState,
        CoordinatorError,
    >)
        ensures
            settles(
                r,
                old(self)@,
                final(self)@,
                settle_cancellation(old(self)@, task, succeeded),
            ),
    {
        let t = match self.task(task) {
            None => {
                return Err(refuse(ErrorCategory::NotFound, "Task does not exist"));
            },
            Some(t) => t,
        };
        let next = if succeeded {
            TaskState::Cancelled
        } else {
            TaskState::Failed
        };
        let reason = if succeeded {
            HoldReason::CancelledAfterDispatch
        } else {
            HoldReason::CancellationFailed
        };
        if t.state != TaskState::Cancelling {
            return Err(refuse_state(TaskState::Cancelling));
        }
        if t.access == RepositoryAccess::Mutating && self.is_held(t.worktree) {
            return Err(
                refuse(ErrorCategory::StorageFailure, "worktree already has an active Hold"),
            );
        }
        match self.transition_exact(task, TaskState::Cancelling, next, false) {
            Err(e) => {
                assert(false);
                return Err(e);
            },
            Ok(_) => {},
        }
        self.cascade_failed_dependencies(task);
        if t.access == RepositoryAccess::Mutating {
            self.push_hold(t.worktree, task, reason);
            self.announce_hold(task, EventOrigin::Hold { task, reason });
        } else {
            self.release_lease(task);
        }
        Ok(next)
    }

    /// Records the end of a cancellation.
    pub fn record_cancellation_completed(
        &mut self,
        actor: AuthenticatedActor,
        task: TaskId,
        succeeded: bool,
        captured: Result<NewObservation, CoordinatorError>,
    ) -> (r: Result<TaskState, CoordinatorError>)
        ensures
            concludes(
                r,
                final(self)@,
                record_cancellation_completed(
                    old(self)@,
                    actor,
                    task,
                    succeeded,
                    outcome(captured),
                ),
            ),
    {
        match self.require_assigned_worker(actor, task) {
            Err(e) => {
                return Err(e);
            },
            Ok(_) => {},
        }
        let checkpoint = if succeeded {
            ObservationCheckpoint::Cancel
        } else {
            ObservationCheckpoint::Failure
        };
        match self.capture_repository_checkpoint(task, checkpoint, captured) {
            Err(_) => {
                let expected = [TaskState::Cancelling];
                assert(expected@ =~= seq![TaskState::Cancelling]);
                match self.fail_task_for_missing_evidence(task, &expected) {
                    Err(e) => Err(e),
                    Ok(_) => Ok(TaskState::Failed),
                }
            },
            Ok(_) => self.settle_cancellation(task, succeeded),
        }
    }
}

// ---------------------------------------------------------------------------------------------
// Approval
// ---------------------------------------------------------------------------------------------

/// A Task under way that reviews another.
pub open spec fn is_active_review_of(task: TaskId) -> spec_fn(TaskRow) -> bool {
    |t: TaskRow| t.related == Some(task) && active_state(t.state)
}

/// Why a Task whose evidence is in order is not approved.
pub open spec fn approval_refusal(m: Model, task: TaskId, revision: u32, digest: TextKey) -> Option<
    Refusal,
> {
    match find_task(m, task) {
        None => Some(no_such_task()),
        Some(t) => if t.state != TaskState::Reviewing {
            Some(must_be(TaskState::Reviewing))
        } else if t.revision != revision {
            Some(refusal(ErrorCategory::Conflict, "Result revision is stale"@))
        } else if held(m, t.worktree) {
            Some(refusal(ErrorCategory::RepositoryBlocked, "worktree has an unresolved Hold"@))
        } else if digested(m, task, ObservationCheckpoint::Approval, digest) is None {
            Some(
                refusal(
                    ErrorCategory::Conflict,
                    "current Repository Observation digest does not match"@,
                ),
            )
        } else if some_where(m.tasks, is_active_review_of(task)) {
            Some(refusal(ErrorCategory::Conflict, "related review Task is still active"@))
        } else {
            None
        },
    }
}

/// The tables after an approval: the approved revision and its evidence stand in the Task, Tasks
/// that wait for the approval may start, the Result is settled and the worktree given back.
pub open spec fn approved(m: Model, task: TaskId, revision: u32, digest: TextKey) -> Model {
    let i = first_where(m.tasks, is_task(task))->0;
    let moved = record_transition(
        Model {
            tasks: m.tasks.update(
                i,
                TaskRow {
                    state: TaskState::Approved,
                    approved_revision: Some(revision),
                    approval: digested(m, task, ObservationCheckpoint::Approval, digest),
                    ..m.tasks[i]
                },
            ),
            ..m
        },
        task,
        TaskState::Reviewing,
        TaskState::Approved,
        TransitionReason::Plain,
    );
    release_lease(
        process_matching_events(
            satisfy_downstream(moved, task, DependencyCondition::Approved, revision),
            SupervisorEventKind::ResultReady,
            task,
            Some(revision),
        ),
        task,
    )
}

/// Approval of a Result revision on the evidence of a digest, of which `key` is the number;
/// `drift` is what comparing the repository with the checkpoint said.
pub open spec fn approve_task(
    m: Model,
    task: TaskId,
    revision: u32,
    digest: Seq<char>,
    key: TextKey,
    drift: Option<Refusal>,
) -> (Model, Result<(), Refusal>) {
    if !digest_shaped(digest) {
        (m, Err(not_a_digest()))
    } else if currency_refusal(m, task, ObservationCheckpoint::Approval, drift) is Some {
        (m, Err(currency_refusal(m, task, ObservationCheckpoint::Approval, drift)->0))
    } else {
        match out_of_scope(m, task, ObservationCheckpoint::Approval) {
            Err(e) => (m, Err(e)),
            Ok(true) => match hold_repository(m, task, HoldReason::OutOfScopeApprovalDrift) {
                Err(e) => (m, Err(e)),
                Ok(next) => (
                    next,
                    Err(
                        refusal(
                            ErrorCategory::RepositoryBlocked,
                            "Approval Observation contains out-of-scope repository drift"@,
                        ),
                    ),
                ),
            },
            Ok(false) => match approval_refusal(m, task, revision, key) {
                Some(e) => (m, Err(e)),
                None => (approved(m, task, revision, key), Ok(())),
            },
        }
    }
}

impl Ledger {
    fn has_active_review(&self, task: TaskId) -> (r: bool)
        ensures
            r == some_where(self@.tasks, is_active_review_of(task)),
    {
        let mut i: usize = 0;
        while i < self.tasks.len()
            invariant
                i <= self.tasks.len(),
                forall|j: int| 0 <= j < i ==> !is_active_review_of(task)(#[trigger] self.tasks@[j]),
            decreases self.tasks.len() - i,
        {
            let t = self.tasks[i];
            let related = match t.related {
                Some(id) => id == task,
                None => false,
            };
            if related && is_active_state(t.state) {
                assert(is_active_review_of(task)(self@.tasks[i as int]));
                return true;
            }
            i += 1;
        }
        false
    }

    fn settle_approval(&mut self, task: TaskId, revision: u32, key: TextKey) -> (r: Result<
        (),
        CoordinatorError,
    >)
        ensures
            match approval_refusal(old(self)@, task, revision, key) {
                Some(e) => r is Err && r->Err_0@ == e && final(self)@ == old(self)@,
                None => r is Ok && final(self)@ == approved(old(self)@, task, revision, key),
            },
    {
        let i = match self.task_position(task) {
            None => {
                return Err(refuse(ErrorCategory::NotFound, "Task does not exist"));
            },
            Some(i) => i,
        };
        let t = self.tasks[i];
        if t.state != TaskState::Reviewing {
            return Err(refuse_state(TaskState::Reviewing));
        }
        if t.revision != revision {
            return Err(refuse(ErrorCategory::Conflict, "Result revision is stale"));
        }
        if self.is_held(t.worktree) {
            return Err(
                refuse(ErrorCategory::RepositoryBlocked, "worktree has an unresolved Hold"),
            );
        }
        let observation = match self.digested(task, ObservationCheckpoint::Approval, key) {
            None => {
                return Err(
                    refuse(
                        ErrorCategory::Conflict,
                        "current Repository Observation digest does not match",
                    ),
                );
            },
            Some(id) => id,
        };
        if self.has_active_review(task) {
            return Err(refuse(ErrorCategory::Conflict, "related review Task is still active"));
        }
        self.tasks.set(
            i,
            TaskRow {
                state: TaskState::Approved,
                approved_revision: Some(revision),
                approval: Some(observation),
                ..t
            },
        );
        self.record_transition(
            task,
            TaskState::Reviewing,
            TaskState::Approved,
            TransitionReason::Plain,
        );
        self.satisfy_downstream_dependencies(task, DependencyCondition::Approved, revision);
        self.process_matching_events(SupervisorEventKind::ResultReady, task, Some(revision));
        self.release_lease(task);
        Ok(())
    }

    /// Approves a Result revision.
    pub fn approve_task(
        &mut self,
        task: TaskId,
        revision: u32,
        digest: &str,
        key: TextKey,
        drift: Option<CoordinatorError>,
    ) -> (r: Result<(), CoordinatorError>)
        ensures
            concludes(
                r,
                final(self)@,
                approve_task(old(self)@, task, revision, digest@, key, optional_refusal(drift)),
            ),
    {
        match validate_digest(digest) {
            Err(e) => {
                return Err(e);
            },
            Ok(_) => {},
        }
        match self.verify_repository_checkpoint_current(
            task,
            ObservationCheckpoint::Approval,
            drift,
        ) {
            Err(e) => {
                return Err(e);
            },
            Ok(_) => {},
        }
        let drifted = match self.checkpoint_has_out_of_scope(
            task,
            ObservationCheckpoint::Approval,
        ) {
            Err(e) => {
                return Err(e);
            },
            Ok(drifted) => drifted,
        };
        if drifted {
            match self.create_repository_hold(task, HoldReason::OutOfScopeApprovalDrift) {
                Err(e) => {
                    return Err(e);
                },
                Ok(_) => {},
            }
            return Err(
                refuse(
                    ErrorCategory::RepositoryBlocked,
                    "Approval Observation contains out-of-scope repository drift",
                ),
            );
        }
        self.settle_approval(task, revision, key)
    }
}

} // verus!

//! Repository evidence: checkpoints, what they show, and the Holds that follow from them.
use vstd::prelude::*;

use crate::contract::{
    DeliveryIntent, HarnessTier, ObservationCheckpoint, RepositoryAccess, SupervisorEventKind,
    TaskState,
};
use crate::error::{outcome, refusal, refuse, CoordinatorError, ErrorCategory, Refusal};
use crate::identity::{RepositoryObservationId, TaskId};
use crate::ledger::cascade::cascade;
use crate::ledger::propagation::revoke;
use crate::ledger::steps::{add_hold, plain, release_lease};
use crate::ledger::{
    find_task, held, insert_event, is_task, record_transition, settles, Ledger, Model,
};
use crate::rows::{
    AuthenticatedActor, EventOrigin, HoldReason, ObservationRow, SnapshotRow, TaskRow, TextKey,
    TransitionReason,
};
use crate::select::{
    first_found, first_missing, first_where, last_found, last_missing, last_where, some_where,
};

verus! {

/// What a command does that may leave a trace even where it refuses.
pub open spec fn concludes<T>(
    r: Result<T, CoordinatorError>,
    after: Model,
    said: (Model, Result<T, Refusal>),
) -> bool {
    after == said.0 && outcome(r) == said.1
}

// ---------------------------------------------------------------------------------------------
// Authority
// ---------------------------------------------------------------------------------------------

pub open spec fn no_such_task() -> Refusal {
    refusal(ErrorCategory::NotFound, "Task does not exist"@)
}

/// Why an actor may not report on a Task: only the Worker that it is assigned to may.
pub open spec fn assignment_refusal(
    m: Model,
    actor: AuthenticatedActor,
    task: TaskId,
) -> Option<Refusal> {
    match find_task(m, task) {
        None => Some(no_such_task()),
        Some(t) => if actor.tier == HarnessTier::Worker && actor.id == t.worker {
            None
        } else {
            Some(
                refusal(
                    ErrorCategory::Forbidden,
                    "only the assigned Worker Host may report this \
                    Task event"@,
                ),
            )
        },
    }
}

/// Checkpoints that each tier may record by itself.
pub open spec fn checkpoint_allowed(tier: HarnessTier, checkpoint: ObservationCheckpoint) -> bool {
    match tier {
        HarnessTier::Supervisor => checkpoint == ObservationCheckpoint::Approval || checkpoint
            == ObservationCheckpoint::HoldClear,
        HarnessTier::Worker => checkpoint == ObservationCheckpoint::Result || checkpoint
            == ObservationCheckpoint::Cancel || checkpoint == ObservationCheckpoint::Failure,
    }
}

/// Why an actor may not record a checkpoint of a Task.
pub open spec fn observation_refusal(
    m: Model,
    actor: AuthenticatedActor,
    task: TaskId,
    checkpoint: ObservationCheckpoint,
) -> Option<Refusal> {
    match find_task(m, task) {
        None => Some(no_such_task()),
        Some(t) => if actor.tier != HarnessTier::Supervisor && actor.id != t.worker {
            Some(
                refusal(
                    ErrorCategory::Forbidden,
                    "only the assigned Worker or Supervisor may record Task repository evidence"@,
                ),
            )
        } else if !checkpoint_allowed(actor.tier, checkpoint) {
            Some(
                refusal(
                    ErrorCategory::Forbidden,
                    "repository checkpoint is not authorized for this Harness tier"@,
                ),
            )
        } else {
            None
        },
    }
}

impl Ledger {
    /// Requires the Worker that a Task is assigned to.
    pub fn require_assigned_worker(&self, actor: AuthenticatedActor, task: TaskId) -> (r: Result<
        (),
        CoordinatorError,
    >)
        ensures
            match assignment_refusal(self@, actor, task) {
                None => r is Ok,
                Some(e) => r is Err && r->Err_0@ == e,
            },
    {
        match self.task(task) {
            None => Err(refuse(ErrorCategory::NotFound, "Task does not exist")),
            Some(t) => if actor.tier == HarnessTier::Worker && actor.id == t.worker {
                Ok(())
            } else {
                Err(
                    refuse(
                        ErrorCategory::Forbidden,
                        "only the assigned Worker Host may report this \
                        Task event",
                    ),
                )
            },
        }
    }

    /// Requires authority to record a checkpoint.
    pub fn require_observer(
        &self,
        actor: AuthenticatedActor,
        task: TaskId,
        checkpoint: ObservationCheckpoint,
    ) -> (r: Result<(), CoordinatorError>)
        ensures
            match observation_refusal(self@, actor, task, checkpoint) {
                None => r is Ok,
                Some(e) => r is Err && r->Err_0@ == e,
            },
    {
        let t = match self.task(task) {
            None => {
                return Err(refuse(ErrorCategory::NotFound, "Task does not exist"));
            },
            Some(t) => t,
        };
        if actor.tier != HarnessTier::Supervisor && actor.id != t.worker {
            return Err(
                refuse(
                    ErrorCategory::Forbidden,
                    "only the assigned Worker or Supervisor may record Task repository evidence",
                ),
            );
        }
        let allowed = match actor.tier {
            HarnessTier::Supervisor => checkpoint == ObservationCheckpoint::Approval || checkpoint
                == ObservationCheckpoint::HoldClear,
            HarnessTier::Worker => checkpoint == ObservationCheckpoint::Result || checkpoint
                == ObservationCheckpoint::Cancel || checkpoint == ObservationCheckpoint::Failure,
        };
        if !allowed {
            return Err(
                refuse(
                    ErrorCategory::Forbidden,
                    "repository checkpoint is not authorized for this Harness tier",
                ),
            );
        }
        Ok(())
    }
}

// ---------------------------------------------------------------------------------------------
// Checkpoints
// ---------------------------------------------------------------------------------------------

/// What was captured of a repository at a checkpoint.
#[derive(Debug, Clone, Copy, PartialEq, Eq, Structural)]
pub struct NewObservation {
    pub id: RepositoryObservationId,
    pub digest: TextKey,
    pub content: TextKey,
    pub out_of_scope: bool,
}

pub open spec fn is_snapshot(task: TaskId, checkpoint: ObservationCheckpoint) -> spec_fn(
    SnapshotRow,
) -> bool {
    |s: SnapshotRow| s.task == task && s.checkpoint == checkpoint
}

pub open spec fn is_observation(task: TaskId, checkpoint: ObservationCheckpoint) -> spec_fn(
    ObservationRow,
) -> bool {
    |o: ObservationRow| o.task == task && o.checkpoint == checkpoint
}

pub open spec fn is_observation_id(id: RepositoryObservationId) -> spec_fn(ObservationRow) -> bool {
    |o: ObservationRow| o.id == id
}

/// An observation of a checkpoint with a digest.
pub open spec fn is_digested(
    task: TaskId,
    checkpoint: ObservationCheckpoint,
    digest: TextKey,
) -> spec_fn(ObservationRow) -> bool {
    |o: ObservationRow| o.task == task && o.checkpoint == checkpoint && o.digest == digest
}

/// The snapshot that a later checkpoint is compared to; the first checkpoint needs none.
pub open spec fn baseline(m: Model, task: TaskId, checkpoint: ObservationCheckpoint) -> Result<
    Option<TextKey>,
    Refusal,
> {
    if find_task(m, task) is None {
        Err(no_such_task())
    } else if checkpoint == ObservationCheckpoint::BeforeDispatch {
        Ok(None)
    } else {
        match first_where(m.snapshots, is_snapshot(task, ObservationCheckpoint::BeforeDispatch)) {
            None => Err(
                refusal(
                    ErrorCategory::InvalidState,
                    "Task has no trusted before-dispatch repository baseline"@,
                ),
            ),
            Some(i) => Ok(Some(m.snapshots[i].content)),
        }
    }
}

/// A checkpoint in the tables: the first baseline of a Task is kept, any other snapshot replaces
/// the one before it.
pub open spec fn observed(
    m: Model,
    task: TaskId,
    checkpoint: ObservationCheckpoint,
    o: NewObservation,
) -> Model {
    let row = SnapshotRow { task, checkpoint, content: o.content };
    Model {
        observations: m.observations.push(
            ObservationRow {
                id: o.id,
                task,
                checkpoint,
                digest: o.digest,
                out_of_scope: o.out_of_scope,
            },
        ),
        snapshots: match first_where(m.snapshots, is_snapshot(task, checkpoint)) {
            None => m.snapshots.push(row),
            Some(i) => if checkpoint == ObservationCheckpoint::BeforeDispatch {
                m.snapshots
            } else {
                m.snapshots.update(i, row)
            },
        },
        ..m
    }
}

/// Recording of a checkpoint that was captured, or could not be.
pub open spec fn record_checkpoint(
    m: Model,
    task: TaskId,
    checkpoint: ObservationCheckpoint,
    captured: Result<NewObservation, Refusal>,
) -> Result<Model, Refusal> {
    if find_task(m, task) is None {
        Err(no_such_task())
    } else {
        match captured {
            Err(e) => Err(e),
            Ok(o) => match baseline(m, task, checkpoint) {
                Err(e) => Err(e),
                Ok(_) => if some_where(m.observations, is_observation_id(o.id)) {
                    Err(refusal(ErrorCategory::Conflict, "identity is already in use"@))
                } else {
                    Ok(observed(m, task, checkpoint, o))
                },
            },
        }
    }
}

impl Ledger {
    fn snapshot_position(&self, task: TaskId, checkpoint: ObservationCheckpoint) -> (r: Option<
        usize,
    >)
        ensures
            match r {
                Some(i) => first_where(self@.snapshots, is_snapshot(task, checkpoint)) == Some(
                    i as int,
                ) && i < self.snapshots.len(),
                None => first_where(self@.snapshots, is_snapshot(task, checkpoint)) is None,
            },
    {
        let mut i: usize = 0;
        while i < self.snapshots.len()
            invariant
                i <= self.snapshots.len(),
                forall|j: int|
                    0 <= j < i ==> !is_snapshot(task, checkpoint)(#[trigger] self.snapshots@[j]),
            decreases self.snapshots.len() - i,
        {
            if self.snapshots[i].task == task && self.snapshots[i].checkpoint == checkpoint {
                proof {
                    first_found(self@.snapshots, is_snapshot(task, checkpoint), i as int);
                }
                return Some(i);
            }
            i += 1;
        }
        proof {
            first_missing(self@.snapshots, is_snapshot(task, checkpoint));
        }
        None
    }

    fn has_observation(&self, id: RepositoryObservationId) -> (r: bool)
        ensures
            r == some_where(self@.observations, is_observation_id(id)),
    {
        let mut i: usize = 0;
        while i < self.observations.len()
            invariant
                i <= self.observations.len(),
                forall|j: int|
                    0 <= j < i ==> !is_observation_id(id)(#[trigger] self.observations@[j]),
            decreases self.observations.len() - i,
        {
            if self.observations[i].id == id {
                assert(is_observation_id(id)(self@.observations[i as int]));
                return true;
            }
            i += 1;
        }
        false
    }

    /// The snapshot that a later checkpoint is compared to.
    pub fn checkpoint_baseline(&self, task: TaskId, checkpoint: ObservationCheckpoint) -> (r:
        Result<Option<TextKey>, CoordinatorError>)
        ensures
            outcome(r) == baseline(self@, task, checkpoint),
    {
        if self.task(task).is_none() {
            return Err(refuse(ErrorCategory::NotFound, "Task does not exist"));
        }
        if checkpoint == ObservationCheckpoint::BeforeDispatch {
            return Ok(None);
        }
        match self.snapshot_position(task, ObservationCheckpoint::BeforeDispatch) {
            None => Err(
                refuse(
                    ErrorCategory::InvalidState,
                    "Task has no trusted before-dispatch repository baseline",
                ),
            ),
            Some(i) => Ok(Some(self.snapshots[i].content)),
        }
    }

    /// Records a checkpoint that was captured, or says why it could not be.
    pub fn capture_repository_checkpoint(
        &mut self,
        task: TaskId,
        checkpoint: ObservationCheckpoint,
        captured: Result<NewObservation, CoordinatorError>,
    ) -> (r: Result<(), CoordinatorError>)
        ensures
            settles(
                r,
                old(self)@,
                final(self)@,
                plain(record_checkpoint(old(self)@, task, checkpoint, outcome(captured))),
            ),
    {
        if self.task(task).is_none() {
            return Err(refuse(ErrorCategory::NotFound, "Task does not exist"));
        }
        let o = match captured {
            Err(e) => {
                return Err(e);
            },
            Ok(o) => o,
        };
        match self.checkpoint_baseline(task, checkpoint) {
            Err(e) => {
                return Err(e);
            },
            Ok(_) => {},
        }
        if self.has_observation(o.id) {
            return Err(refuse(ErrorCategory::Conflict, "identity is already in use"));
        }
        self.observations.push(
            ObservationRow {
                id: o.id,
                task,
                checkpoint,
                digest: o.digest,
                out_of_scope: o.out_of_scope,
            },
        );
        let row = SnapshotRow { task, checkpoint, content: o.content };
        match self.snapshot_position(task, checkpoint) {
            None => {
                self.snapshots.push(row);
            },
            Some(i) => {
                if checkpoint != ObservationCheckpoint::BeforeDispatch {
                    self.snapshots.set(i, row);
                }
            },
        }
        Ok(())
    }
}

// ---------------------------------------------------------------------------------------------
// What checkpoints show
// ---------------------------------------------------------------------------------------------

/// Whether the newest observation of a checkpoint shows changes outside the write scopes.
pub open spec fn out_of_scope(m: Model, task: TaskId, checkpoint: ObservationCheckpoint) -> Result<
    bool,
    Refusal,
> {
    match last_where(m.observations, is_observation(task, checkpoint)) {
        None => Err(refusal(ErrorCategory::Conflict, "repository checkpoint is missing"@)),
        Some(i) => Ok(m.observations[i].out_of_scope),
    }
}

/// Why a checkpoint is not current: it was never captured, or the repository differs from it now,
/// as `drift` says.
pub open spec fn currency_refusal(
    m: Model,
    task: TaskId,
    checkpoint: ObservationCheckpoint,
    drift: Option<Refusal>,
) -> Option<Refusal> {
    if find_task(m, task) is None || first_where(m.snapshots, is_snapshot(task, checkpoint)) is None {
        Some(
            refusal(
                ErrorCategory::Conflict,
                "required trusted repository checkpoint is missing"@,
            ),
        )
    } else {
        drift
    }
}

/// The newest observation of a checkpoint with a digest.
pub open spec fn digested(
    m: Model,
    task: TaskId,
    checkpoint: ObservationCheckpoint,
    digest: TextKey,
) -> Option<RepositoryObservationId> {
    match last_where(m.observations, is_digested(task, checkpoint, digest)) {
        Some(i) => Some(m.observations[i].id),
        None => None,
    }
}

impl Ledger {
    /// Whether the newest observation of a checkpoint shows changes outside the write scopes.
    pub fn checkpoint_has_out_of_scope(
        &self,
        task: TaskId,
        checkpoint: ObservationCheckpoint,
    ) -> (r: Result<bool, CoordinatorError>)
        ensures
            outcome(r) == out_of_scope(self@, task, checkpoint),
    {
        let mut i: usize = self.observations.len();
        while i > 0
            invariant
                i <= self.observations.len(),
                forall|j: int|
                    i <= j < self.observations.len() ==> !is_observation(task, checkpoint)(
                        #[trigger] self.observations@[j],
                    ),
            decreases i,
        {
            i -= 1;
            let o = self.observations[i];
            if o.task == task && o.checkpoint == checkpoint {
                proof {
                    last_found(self@.observations, is_observation(task, checkpoint), i as int);
                }
                return Ok(o.out_of_scope);
            }
        }
        proof {
            last_missing(self@.observations, is_observation(task, checkpoint));
        }
        Err(refuse(ErrorCategory::Conflict, "repository checkpoint is missing"))
    }

    /// The stored snapshot of a checkpoint that the repository is compared to.
    pub fn checkpoint_content(&self, task: TaskId, checkpoint: ObservationCheckpoint) -> (r: Option<
        TextKey,
    >)
        ensures
            r == (match first_where(self@.snapshots, is_snapshot(task, checkpoint)) {
                Some(i) => Some(self@.snapshots[i].content),
                None => None,
            }),
    {
        match self.snapshot_position(task, checkpoint) {
            Some(i) => Some(self.snapshots[i].content),
            None => None,
        }
    }

    /// Requires a checkpoint that is current; `drift` is what comparing the repository said.
    pub fn verify_repository_checkpoint_current(
        &self,
        task: TaskId,
        checkpoint: ObservationCheckpoint,
        drift: Option<CoordinatorError>,
    ) -> (r: Result<(), CoordinatorError>)
        ensures
            match currency_refusal(
                self@,
                task,
                checkpoint,
                crate::ledger::dispatch::optional_refusal(drift),
            ) {
                None => r is Ok,
                Some(e) => r is Err && r->Err_0@ == e,
            },
    {
        if self.task(task).is_none() || self.snapshot_position(task, checkpoint).is_none() {
            return Err(
                refuse(
                    ErrorCategory::Conflict,
                    "required trusted repository checkpoint is missing",
                ),
            );
        }
        match drift {
            Some(e) => Err(e),
            None => Ok(()),
        }
    }

    /// The newest observation of a checkpoint with a digest.
    pub fn digested(
        &self,
        task: TaskId,
        checkpoint: ObservationCheckpoint,
        digest: TextKey,
    ) -> (r: Option<RepositoryObservationId>)
        ensures
            r == digested(self@, task, checkpoint, digest),
    {
        let mut i: usize = self.observations.len();
        while i > 0
            invariant
                i <= self.observations.len(),
                forall|j: int|
                    i <= j < self.observations.len() ==> !is_digested(task, checkpoint, digest)(
                        #[trigger] self.observations@[j],
                    ),
            decreases i,
        {
            i -= 1;
            let o = self.observations[i];
            if o.task == task && o.checkpoint == checkpoint && o.digest == digest {
                proof {
                    last_found(self@.observations, is_digested(task, checkpoint, digest), i as int);
                }
                return Some(o.id);
            }
        }
        proof {
            last_missing(self@.observations, is_digested(task, checkpoint, digest));
        }
        None
    }
}

// ---------------------------------------------------------------------------------------------
// Holds for missing or alarming evidence
// ---------------------------------------------------------------------------------------------

/// The notice of a Hold.
pub open spec fn announce_hold(m: Model, task: TaskId, origin: EventOrigin) -> Model {
    insert_event(
        m,
        SupervisorEventKind::WorktreeHoldCreated,
        Some(task),
        None,
        None,
        origin,
        DeliveryIntent::FollowUp,
        None,
    )
}

/// The Task that answers for drift: a mutating Task itself, a reader its related Task.
pub open spec fn answerable(t: TaskRow) -> Option<TaskId> {
    if t.access == RepositoryAccess::Mutating {
        Some(t.id)
    } else {
        t.related
    }
}

/// A Hold on the worktree of a Task; a Result under review is withdrawn from unbound edges.
pub open spec fn hold_repository(m: Model, task: TaskId, reason: HoldReason) -> Result<
    Model,
    Refusal,
> {
    match find_task(m, task) {
        None => Err(no_such_task()),
        Some(t) => match answerable(t) {
            None => Err(
                refusal(
                    ErrorCategory::RepositoryBlocked,
                    "read-only repository drift has no mutating parent to hold"@,
                ),
            ),
            Some(owner) => {
                let stopped = if held(m, t.worktree) {
                    m
                } else {
                    announce_hold(
                        add_hold(m, t.worktree, owner, reason),
                        owner,
                        EventOrigin::Hold { task: owner, reason },
                    )
                };
                if t.state == TaskState::Reviewing {
                    Ok(revoke(stopped, task))
                } else {
                    Ok(stopped)
                }
            },
        },
    }
}

/// A Task failed for missing repository evidence, out of one of the states it may be in.
pub open spec fn fail_for_missing_evidence(m: Model, task: TaskId, expected: Seq<TaskState>) -> Result<
    Model,
    Refusal,
> {
    match first_where(m.tasks, is_task(task)) {
        None => Err(no_such_task()),
        Some(i) => {
            let t = m.tasks[i];
            if !expected.contains(t.state) {
                Err(
                    refusal(
                        ErrorCategory::InvalidState,
                        "Task state changed before evidence failure could be settled"@,
                    ),
                )
            } else {
                let failed = cascade(
                    record_transition(
                        Model {
                            tasks: m.tasks.update(i, TaskRow { state: TaskState::Failed, ..t }),
                            ..m
                        },
                        task,
                        t.state,
                        TaskState::Failed,
                        TransitionReason::MissingEvidence,
                    ),
                    task,
                );
                if t.access == RepositoryAccess::Mutating {
                    Ok(
                        announce_hold(
                            add_hold(
                                failed,
                                t.worktree,
                                task,
                                HoldReason::RepositoryObservationFailed,
                            ),
                            task,
                            EventOrigin::Hold {
                                task,
                                reason: HoldReason::RepositoryObservationFailed,
                            },
                        ),
                    )
                } else {
                    Ok(release_lease(failed, task))
                }
            }
        },
    }
}

/// A checkpoint that an actor asks for: where the Supervisor's evidence cannot be captured, the
/// worktree is held.
pub open spec fn observe_repository(
    m: Model,
    actor: AuthenticatedActor,
    task: TaskId,
    checkpoint: ObservationCheckpoint,
    captured: Result<NewObservation, Refusal>,
) -> (Model, Result<(), Refusal>) {
    if observation_refusal(m, actor, task, checkpoint) is Some {
        (m, Err(observation_refusal(m, actor, task, checkpoint)->0))
    } else {
        match record_checkpoint(m, task, checkpoint, captured) {
            Ok(next) => (next, Ok(())),
            Err(e) => if checkpoint == ObservationCheckpoint::Approval || checkpoint
                == ObservationCheckpoint::HoldClear {
                match hold_repository(m, task, HoldReason::RepositoryCheckpointFailed) {
                    Ok(next) => (next, Err(e)),
                    Err(other) => (m, Err(other)),
                }
            } else {
                (m, Err(e))
            },
        }
    }
}

impl Ledger {
    /// Announces a Hold.
    pub fn announce_hold(&mut self, task: TaskId, origin: EventOrigin)
        ensures
            final(self)@ == announce_hold(old(self)@, task, origin),
    {
        self.insert_event(
            SupervisorEventKind::WorktreeHoldCreated,
            Some(task),
            None,
            None,
            origin,
            DeliveryIntent::FollowUp,
            None,
        );
    }

    /// Holds the worktree of a Task.
    pub fn create_repository_hold(&mut self, task: TaskId, reason: HoldReason) -> (r: Result<
        (),
        CoordinatorError,
    >)
        ensures
            settles(r, old(self)@, final(self)@, plain(hold_repository(old(self)@, task, reason))),
    {
        let t = match self.task(task) {
            None => {
                return Err(refuse(ErrorCategory::NotFound, "Task does not exist"));
            },
            Some(t) => t,
        };
        let owner = if t.access == RepositoryAccess::Mutating {
            Some(t.id)
        } else {
            t.related
        };
        let owner = match owner {
            None => {
                return Err(
                    refuse(
                        ErrorCategory::RepositoryBlocked,
                        "read-only repository drift has no mutating parent to hold",
                    ),
                );
            },
            Some(owner) => owner,
        };
        if self.add_hold(t.worktree, owner, reason) {
            self.announce_hold(owner, EventOrigin::Hold { task: owner, reason });
        }
        if t.state == TaskState::Reviewing {
            self.revoke_unbound_result_dependencies(task);
        }
        Ok(())
    }

    /// Fails a Task for missing repository evidence.
    pub fn fail_task_for_missing_evidence(&mut self, task: TaskId, expected: &[TaskState]) -> (r:
        Result<(), CoordinatorError>)
        ensures
            settles(
                r,
                old(self)@,
                final(self)@,
                plain(fail_for_missing_evidence(old(self)@, task, expected@)),
            ),
    {
        let i = match self.task_position(task) {
            None => {
                return Err(refuse(ErrorCategory::NotFound, "Task does not exist"));
            },
            Some(i) => i,
        };
        let t = self.tasks[i];
        let mut k: usize = 0;
        while k < expected.len() && expected[k] != t.state
            invariant
                k <= expected.len(),
                forall|j: int| 0 <= j < k ==> expected@[j] != t.state,
            decreases expected.len() - k,
        {
            k += 1;
        }
        if k == expected.len() {
            return Err(
                refuse(
                    ErrorCategory::InvalidState,
                    "Task state changed before evidence failure could be settled",
                ),
            );
        }
        self.tasks.set(i, TaskRow { state: TaskState::Failed, ..t });
        self.record_transition(
            task,
            t.state,
            TaskState::Failed,
            TransitionReason::MissingEvidence,
        );
        self.cascade_failed_dependencies(task);
        if t.access == RepositoryAccess::Mutating {
            let _ = self.add_hold(t.worktree, task, HoldReason::RepositoryObservationFailed);
            self.announce_hold(
                task,
                EventOrigin::Hold { task, reason: HoldReason::RepositoryObservationFailed },
            );
        } else {
            self.release_lease(task);
        }
        Ok(())
    }

    /// Records a checkpoint that an actor asks for.
    pub fn capture_repository_observation(
        &mut self,
        actor: AuthenticatedActor,
        task: TaskId,
        checkpoint: ObservationCheckpoint,
        captured: Result<NewObservation, CoordinatorError>,
    ) -> (r: Result<(), CoordinatorError>)
        ensures
            concludes(
                r,
                final(self)@,
                observe_repository(old(self)@, actor, task, checkpoint, outcome(captured)),
            ),
    {
        match self.require_observer(actor, task, checkpoint) {
            Err(e) => {
                return Err(e);
            },
            Ok(_) => {},
        }
        match self.capture_repository_checkpoint(task, checkpoint, captured) {
            Ok(_) => Ok(()),
            Err(e) => {
                if checkpoint == ObservationCheckpoint::Approval || checkpoint
                    == ObservationCheckpoint::HoldClear {
                    match self.create_repository_hold(task, HoldReason::RepositoryCheckpointFailed) {
                        Err(other) => {
                            return Err(other);
                        },
                        Ok(_) => {},
                    }
                }
                Err(e)
            },
        }
    }
}

} // verus!

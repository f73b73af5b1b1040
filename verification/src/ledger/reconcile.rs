//! Ambiguous native delivery and the reconciliation of what it leaves behind.
use vstd::prelude::*;

use crate::contract::{
    Activity, DeliveryIntent, DependencyCondition, ObservationCheckpoint, Presence,
    RepositoryAccess, SupervisorEventKind, TaskState,
};
use crate::digest::{digest_shaped, not_a_digest, validate_digest};
use crate::error::{refusal, refuse, CoordinatorError, ErrorCategory, Refusal};
use crate::identity::{HarnessSessionId, MessageId, RepositoryObservationId, TaskId};
use crate::ledger::cascade::cascade;
use crate::ledger::dispatch::optional_refusal;
use crate::ledger::evidence::{announce_hold, currency_refusal, digested, no_such_task};
use crate::ledger::propagation::satisfy_downstream;
use crate::ledger::settlement::{refuse_missing_row, row_missing};
use crate::ledger::steps::{
    held_already, must_be, plain, push_hold, refuse_state, release_lease, transition,
};
use crate::ledger::{
    find_task, held, insert_event, is_attempt_of, is_live_session, is_message, settles, Ledger,
    Model,
};
use crate::rows::{
    AttemptRow, AttemptState, AuthenticatedActor, EventOrigin, HoldReason, HoldRow, SessionRow,
    TextKey, Wording,
};
use crate::select::{count_step, count_where, first_where, last_where, update_where};
use crate::text::{blank, byte_count, byte_len, is_blank};

verus! {

// ---------------------------------------------------------------------------------------------
// Ended Sessions
// ---------------------------------------------------------------------------------------------

/// A live Session ended with a presence and an activity.
pub open spec fn end_session(
    m: Model,
    id: HarnessSessionId,
    presence: Presence,
    activity: Activity,
) -> Model {
    match first_where(m.sessions, is_live_session(id)) {
        None => m,
        Some(i) => Model {
            sessions: m.sessions.update(
                i,
                SessionRow { presence, activity, ended: true, ..m.sessions[i] },
            ),
            ..m
        },
    }
}

impl Ledger {
    /// Ends a live Session; says whether there was one.
    pub fn end_session(&mut self, id: HarnessSessionId, presence: Presence, activity: Activity) -> (r:
        bool)
        ensures
            final(self)@ == end_session(old(self)@, id, presence, activity),
            r == first_where(old(self)@.sessions, is_live_session(id)) is Some,
    {
        match self.live_session_position(id) {
            None => false,
            Some(i) => {
                let s = self.sessions[i];
                self.sessions.set(i, SessionRow { presence, activity, ended: true, ..s });
                true
            },
        }
    }
}

// ---------------------------------------------------------------------------------------------
// Ambiguous delivery
// ---------------------------------------------------------------------------------------------

/// Why ambiguous acceptance is not recorded.
pub open spec fn ambiguity_refusal(
    m: Model,
    actor: AuthenticatedActor,
    id: MessageId,
    diagnostic: Seq<char>,
) -> Option<Refusal> {
    if !(1 <= byte_count(diagnostic) <= 4096) {
        Some(
            refusal(
                ErrorCategory::InvalidInput,
                "delivery diagnostic must contain 1 to 4096 bytes"@,
            ),
        )
    } else {
        match first_where(m.messages, is_message(id)) {
            None => Some(refusal(ErrorCategory::NotFound, "Message does not exist"@)),
            Some(i) => if m.messages[i].recipient != actor.id {
                Some(
                    refusal(
                        ErrorCategory::Forbidden,
                        "only the destination Host may report ambiguous acceptance"@,
                    ),
                )
            } else {
                match m.messages[i].task {
                    None => Some(
                        refusal(
                            ErrorCategory::InvalidInput,
                            "network Notification cannot make a Task delivery unknown"@,
                        ),
                    ),
                    Some(task) => if last_where(m.attempts, is_attempt_of(id)) is None
                        || find_task(m, task) is None {
                        Some(row_missing())
                    } else if find_task(m, task)->0.state != TaskState::Dispatching {
                        Some(
                            refusal(
                                ErrorCategory::InvalidState,
                                "only initial Task dispatch may enter delivery_unknown"@,
                            ),
                        )
                    } else if find_task(m, task)->0.access == RepositoryAccess::Mutating && held(
                        m,
                        find_task(m, task)->0.worktree,
                    ) {
                        Some(held_already())
                    } else {
                        None
                    },
                }
            },
        }
    }
}

/// The latest attempt of a Message marked as ambiguous, with the reason, its Session failed.
pub open spec fn doubted(m: Model, id: MessageId, why: Wording) -> Model {
    let k = last_where(m.attempts, is_attempt_of(id))->0;
    let marked = Model {
        attempts: m.attempts.update(
            k,
            AttemptRow {
                state: AttemptState::Unknown,
                wrote: true,
                doubt: Some(why),
                ..m.attempts[k]
            },
        ),
        ..m
    };
    match m.attempts[k].session {
        Some(session) => end_session(marked, session, Presence::Failed, Activity::Failed),
        None => marked,
    }
}

/// The tables after ambiguous acceptance of the root Message of a Task; the event says why.
pub open spec fn delivery_doubted(m: Model, id: MessageId, task: TaskId, why: Wording) -> Model {
    let t = find_task(m, task)->0;
    let noticed = insert_event(
        transition(
            doubted(m, id, why),
            task,
            TaskState::Dispatching,
            TaskState::DeliveryUnknown,
            false,
        )->Ok_0,
        SupervisorEventKind::DeliveryUnknown,
        Some(task),
        None,
        Some(id),
        EventOrigin::Delivery { message: id },
        DeliveryIntent::FollowUp,
        Some(why),
    );
    if t.access == RepositoryAccess::Mutating {
        announce_hold(
            push_hold(noticed, t.worktree, task, HoldReason::DeliveryUnknown),
            task,
            EventOrigin::Hold { task, reason: HoldReason::DeliveryUnknown },
        )
    } else {
        noticed
    }
}

/// A report of ambiguous acceptance; `why` stands for the diagnostic.
pub open spec fn mark_delivery_unknown(
    m: Model,
    actor: AuthenticatedActor,
    id: MessageId,
    diagnostic: Seq<char>,
    why: Wording,
) -> Result<(Model, TaskId), Refusal> {
    match ambiguity_refusal(m, actor, id, diagnostic) {
        Some(e) => Err(e),
        None => {
            let task = m.messages[first_where(m.messages, is_message(id))->0].task->0;
            Ok((delivery_doubted(m, id, task, why), task))
        },
    }
}

impl Ledger {
    /// Records that native acceptance of a root Message is ambiguous; gives its Task.
    pub fn mark_delivery_unknown(
        &mut self,
        actor: AuthenticatedActor,
        id: MessageId,
        diagnostic: &str,
        why: Wording,
    ) -> (r: Result<TaskId, CoordinatorError>)
        ensures
            settles(
                r,
                old(self)@,
                final(self)@,
                mark_delivery_unknown(old(self)@, actor, id, diagnostic@, why),
            ),
    {
        let bytes = byte_len(diagnostic);
        if bytes == 0 || bytes > 4096 {
            return Err(
                refuse(
                    ErrorCategory::InvalidInput,
                    "delivery diagnostic must contain 1 to 4096 bytes",
                ),
            );
        }
        let message = match self.message_position(id) {
            None => {
                return Err(refuse(ErrorCategory::NotFound, "Message does not exist"));
            },
            Some(i) => self.messages[i],
        };
        if message.recipient != actor.id {
            return Err(
                refuse(
                    ErrorCategory::Forbidden,
                    "only the destination Host may report ambiguous acceptance",
                ),
            );
        }
        let task = match message.task {
            None => {
                return Err(
                    refuse(
                        ErrorCategory::InvalidInput,
                        "network Notification cannot make a Task delivery unknown",
                    ),
                );
            },
            Some(task) => task,
        };
        let k = match self.latest_attempt(id) {
            None => {
                return Err(refuse_missing_row());
            },
            Some(k) => k,
        };
        let t = match self.task(task) {
            None => {
                return Err(refuse_missing_row());
            },
            Some(t) => t,
        };
        if t.state != TaskState::Dispatching {
            return Err(
                refuse(
                    ErrorCategory::InvalidState,
                    "only initial Task dispatch may enter delivery_unknown",
                ),
            );
        }
        if t.access == RepositoryAccess::Mutating && self.is_held(t.worktree) {
            return Err(
                refuse(ErrorCategory::StorageFailure, "worktree already has an active Hold"),
            );
        }
        let attempt = self.attempts[k];
        self.attempts.set(
            k,
            AttemptRow {
                state: AttemptState::Unknown,
                wrote: true,
                doubt: Some(why),
                ..attempt
            },
        );
        if let Some(session) = attempt.session {
            let _ = self.end_session(session, Presence::Failed, Activity::Failed);
        }
        assert(self@ == doubted(old(self)@, id, why));
        match self.transition_exact(
            task,
            TaskState::Dispatching,
            TaskState::DeliveryUnknown,
            false,
        ) {
            Err(e) => {
                assert(false);
                return Err(e);
            },
            Ok(_) => {},
        }
        self.insert_event(
            SupervisorEventKind::DeliveryUnknown,
            Some(task),
            None,
            Some(id),
            EventOrigin::Delivery { message: id },
            DeliveryIntent::FollowUp,
            Some(why),
        );
        if t.access == RepositoryAccess::Mutating {
            self.push_hold(t.worktree, task, HoldReason::DeliveryUnknown);
            self.announce_hold(
                task,
                EventOrigin::Hold { task, reason: HoldReason::DeliveryUnknown },
            );
        }
        Ok(task)
    }
}

// ---------------------------------------------------------------------------------------------
// Reconciliation
// ---------------------------------------------------------------------------------------------

/// What the Supervisor decides about an ambiguous delivery.
#[derive(Debug, Clone, Copy, PartialEq, Eq, Structural)]
pub enum DeliveryUnknownResolution {
    /// Put the Task back in line.
    Requeue,
    /// Cancel the Task.
    Cancel,
}

/// An audit note that says something in at most 4096 bytes.
pub open spec fn noteworthy(note: Seq<char>) -> bool {
    !blank(note) && byte_count(note) <= 4096
}

pub open spec fn note_refusal() -> Refusal {
    refusal(ErrorCategory::InvalidInput, "audit note must contain 1 to 4096 bytes"@)
}

pub open spec fn is_active_hold_of(task: TaskId) -> spec_fn(HoldRow) -> bool {
    |h: HoldRow| h.task == task && !h.cleared
}

pub open spec fn clear(h: HoldRow, observation: RepositoryObservationId, note: TextKey) -> HoldRow {
    HoldRow { cleared: true, observation: Some(observation), note: Some(note), ..h }
}

/// Every active Hold of a Task cleared on the evidence of an observation, with an audit note.
pub open spec fn clear_holds(
    m: Model,
    task: TaskId,
    observation: RepositoryObservationId,
    note: TextKey,
) -> Model {
    Model {
        holds: update_where(
            m.holds,
            is_active_hold_of(task),
            |h: HoldRow| clear(h, observation, note),
        ),
        ..m
    }
}

/// Why reconciliation is refused before its Task is looked at.
pub open spec fn reconciliation_refusal(
    m: Model,
    task: TaskId,
    digest: Seq<char>,
    note: Seq<char>,
    drift: Option<Refusal>,
) -> Option<Refusal> {
    if !digest_shaped(digest) {
        Some(not_a_digest())
    } else if currency_refusal(m, task, ObservationCheckpoint::HoldClear, drift) is Some {
        currency_refusal(m, task, ObservationCheckpoint::HoldClear, drift)
    } else if !noteworthy(note) {
        Some(note_refusal())
    } else {
        None
    }
}

/// The tables after the resolution of an ambiguous delivery.
pub open spec fn resolved(
    m: Model,
    task: TaskId,
    next: TaskState,
    access: RepositoryAccess,
    observation: RepositoryObservationId,
    note: TextKey,
) -> Model {
    let moved = transition(m, task, TaskState::DeliveryUnknown, next, false)->Ok_0;
    let cascaded = if next == TaskState::Cancelled {
        cascade(moved, task)
    } else {
        moved
    };
    let cleared = clear_holds(cascaded, task, observation, note);
    if next == TaskState::Cancelled || access == RepositoryAccess::ReadOnly {
        release_lease(cleared, task)
    } else {
        cleared
    }
}

pub open spec fn resolved_to(resolution: DeliveryUnknownResolution) -> TaskState {
    match resolution {
        DeliveryUnknownResolution::Requeue => TaskState::Queued,
        DeliveryUnknownResolution::Cancel => TaskState::Cancelled,
    }
}

/// The resolution of an ambiguous delivery on the evidence of a digest; `key` and `note_key` are the
/// numbers of the digest and of the audit note.
pub open spec fn resolve_delivery_unknown(
    m: Model,
    task: TaskId,
    resolution: DeliveryUnknownResolution,
    digest: Seq<char>,
    key: TextKey,
    note: Seq<char>,
    note_key: TextKey,
    drift: Option<Refusal>,
) -> Result<(Model, TaskState), Refusal> {
    if reconciliation_refusal(m, task, digest, note, drift) is Some {
        Err(reconciliation_refusal(m, task, digest, note, drift)->0)
    } else {
        match find_task(m, task) {
            None => Err(no_such_task()),
            Some(t) => if t.state != TaskState::DeliveryUnknown {
                Err(must_be(TaskState::DeliveryUnknown))
            } else {
                match digested(m, task, ObservationCheckpoint::HoldClear, key) {
                    None => Err(
                        refusal(
                            ErrorCategory::Conflict,
                            "reconciliation Observation digest does not match"@,
                        ),
                    ),
                    Some(observation) => Ok(
                        (
                            resolved(
                                m,
                                task,
                                resolved_to(resolution),
                                t.access,
                                observation,
                                note_key,
                            ),
                            resolved_to(resolution),
                        ),
                    ),
                }
            },
        }
    }
}

/// Tasks whose Hold can be cleared.
pub open spec fn clearable(state: TaskState) -> bool {
    state == TaskState::Reviewing || state == TaskState::Cancelled || state == TaskState::Failed
}

/// Clearance of the Hold of a Task on the evidence of a digest: a finished Task gives the worktree
/// back, one under review offers its Result downstream.
pub open spec fn clear_worktree_hold(
    m: Model,
    task: TaskId,
    digest: Seq<char>,
    key: TextKey,
    note: Seq<char>,
    note_key: TextKey,
    drift: Option<Refusal>,
) -> Result<Model, Refusal> {
    if reconciliation_refusal(m, task, digest, note, drift) is Some {
        Err(reconciliation_refusal(m, task, digest, note, drift)->0)
    } else {
        match find_task(m, task) {
            None => Err(no_such_task()),
            Some(t) => if !clearable(t.state) {
                Err(
                    refusal(
                        ErrorCategory::InvalidState,
                        "Hold clearance requires a reviewing, cancelled, or failed Task"@,
                    ),
                )
            } else {
                match digested(m, task, ObservationCheckpoint::HoldClear, key) {
                    None => Err(
                        refusal(
                            ErrorCategory::Conflict,
                            "Hold reconciliation Observation digest does not match"@,
                        ),
                    ),
                    Some(observation) => if count_where(m.holds, is_active_hold_of(task)) != 1 {
                        Err(
                            refusal(ErrorCategory::NotFound, "Task has no active Worktree Hold"@),
                        )
                    } else if t.state == TaskState::Reviewing {
                        Ok(
                            satisfy_downstream(
                                clear_holds(m, task, observation, note_key),
                                task,
                                DependencyCondition::ResultReady,
                                t.revision,
                            ),
                        )
                    } else {
                        Ok(release_lease(clear_holds(m, task, observation, note_key), task))
                    },
                }
            },
        }
    }
}

impl Ledger {
    fn clear_holds(&mut self, task: TaskId, observation: RepositoryObservationId, note: TextKey)
        ensures
            final(self)@ == clear_holds(old(self)@, task, observation, note),
    {
        let n = self.holds.len();
        let mut i: usize = 0;
        while i < n
            invariant
                i <= n,
                n == self.holds.len(),
                n == old(self).holds.len(),
                self@ == (Model { holds: self.holds@, ..old(self)@ }),
                forall|j: int|
                    0 <= j < i ==> #[trigger] self.holds@[j] == (if is_active_hold_of(task)(
                        old(self).holds@[j],
                    ) {
                        clear(old(self).holds@[j], observation, note)
                    } else {
                        old(self).holds@[j]
                    }),
                forall|j: int| i <= j < n ==> #[trigger] self.holds@[j] == old(self).holds@[j],
            decreases n - i,
        {
            let h = self.holds[i];
            if h.task == task && !h.cleared {
                self.holds.set(
                    i,
                    HoldRow {
                        cleared: true,
                        observation: Some(observation),
                        note: Some(note),
                        ..h
                    },
                );
            }
            i += 1;
        }
        assert(self.holds@ =~= update_where(
            old(self).holds@,
            is_active_hold_of(task),
            |h: HoldRow| clear(h, observation, note),
        ));
    }

    fn has_one_hold(&self, task: TaskId) -> (r: bool)
        ensures
            r == (count_where(self@.holds, is_active_hold_of(task)) == 1),
    {
        let mut n: usize = 0;
        let mut i: usize = 0;
        while i < self.holds.len()
            invariant
                i <= self.holds.len(),
                n <= i,
                n == count_where(self@.holds.take(i as int), is_active_hold_of(task)),
            decreases self.holds.len() - i,
        {
            proof {
                count_step(self@.holds, is_active_hold_of(task), i as int);
            }
            if self.holds[i].task == task && !self.holds[i].cleared {
                n += 1;
            }
            i += 1;
        }
        assert(self@.holds.take(i as int) =~= self@.holds);
        n == 1
    }

    fn require_reconcilable(
        &self,
        task: TaskId,
        digest: &str,
        note: &str,
        drift: Option<CoordinatorError>,
    ) -> (r: Result<(), CoordinatorError>)
        ensures
            match reconciliation_refusal(self@, task, digest@, note@, optional_refusal(drift)) {
                None => r is Ok,
                Some(e) => r is Err && r->Err_0@ == e,
            },
    {
        match validate_digest(digest) {
            Err(e) => {
                return Err(e);
            },
            Ok(_) => {},
        }
        match self.verify_repository_checkpoint_current(
            task,
            ObservationCheckpoint::HoldClear,
            drift,
        ) {
            Err(e) => {
                return Err(e);
            },
            Ok(_) => {},
        }
        if is_blank(note) || byte_len(note) > 4096 {
            return Err(
                refuse(ErrorCategory::InvalidInput, "audit note must contain 1 to 4096 bytes"),
            );
        }
        Ok(())
    }

    /// Resolves an ambiguous delivery.
    pub fn resolve_delivery_unknown(
        &mut self,
        task: TaskId,
        resolution: DeliveryUnknownResolution,
        digest: &str,
        key: TextKey,
        note: &str,
        note_key: TextKey,
        drift: Option<CoordinatorError>,
    ) -> (r: Result<TaskState, CoordinatorError>)
        ensures
            settles(
                r,
                old(self)@,
                final(self)@,
                resolve_delivery_unknown(
                    old(self)@,
                    task,
                    resolution,
                    digest@,
                    key,
                    note@,
                    note_key,
                    optional_refusal(drift),
                ),
            ),
    {
        match self.require_reconcilable(task, digest, note, drift) {
            Err(e) => {
                return Err(e);
            },
            Ok(_) => {},
        }
        let t = match self.task(task) {
            None => {
                return Err(refuse(ErrorCategory::NotFound, "Task does not exist"));
            },
            Some(t) => t,
        };
        if t.state != TaskState::DeliveryUnknown {
            return Err(refuse_state(TaskState::DeliveryUnknown));
        }
        let observation = match self.digested(task, ObservationCheckpoint::HoldClear, key) {
            None => {
                return Err(
                    refuse(
                        ErrorCategory::Conflict,
                        "reconciliation Observation digest does not match",
                    ),
                );
            },
            Some(id) => id,
        };
        let next = match resolution {
            DeliveryUnknownResolution::Requeue => TaskState::Queued,
            DeliveryUnknownResolution::Cancel => TaskState::Cancelled,
        };
        match self.transition_exact(task, TaskState::DeliveryUnknown, next, false) {
            Err(e) => {
                assert(false);
                return Err(e);
            },
            Ok(_) => {},
        }
        if next == TaskState::Cancelled {
            self.cascade_failed_dependencies(task);
        }
        self.clear_holds(task, observation, note_key);
        if next == TaskState::Cancelled || t.access == RepositoryAccess::ReadOnly {
            self.release_lease(task);
        }
        Ok(next)
    }

    /// Clears the Hold of a Task.
    pub fn clear_worktree_hold(
        &mut self,
        task: TaskId,
        digest: &str,
        key: TextKey,
        note: &str,
        note_key: TextKey,
        drift: Option<CoordinatorError>,
    ) -> (r: Result<(), CoordinatorError>)
        ensures
            settles(
                r,
                old(self)@,
                final(self)@,
                plain(
                    clear_worktree_hold(
                        old(self)@,
                        task,
                        digest@,
                        key,
                        note@,
                        note_key,
                        optional_refusal(drift),
                    ),
                ),
            ),
    {
        match self.require_reconcilable(task, digest, note, drift) {
            Err(e) => {
                return Err(e);
            },
            Ok(_) => {},
        }
        let t = match self.task(task) {
            None => {
                return Err(refuse(ErrorCategory::NotFound, "Task does not exist"));
            },
            Some(t) => t,
        };
        if t.state != TaskState::Reviewing && t.state != TaskState::Cancelled && t.state
            != TaskState::Failed {
            return Err(
                refuse(
                    ErrorCategory::InvalidState,
                    "Hold clearance requires a reviewing, cancelled, or failed Task",
                ),
            );
        }
        let observation = match self.digested(task, ObservationCheckpoint::HoldClear, key) {
            None => {
                return Err(
                    refuse(
                        ErrorCategory::Conflict,
                        "Hold reconciliation Observation digest does not match",
                    ),
                );
            },
            Some(id) => id,
        };
        if !self.has_one_hold(task) {
            return Err(refuse(ErrorCategory::NotFound, "Task has no active Worktree Hold"));
        }
        self.clear_holds(task, observation, note_key);
        if t.state == TaskState::Reviewing {
            self.satisfy_downstream_dependencies(
                task,
                DependencyCondition::ResultReady,
                t.revision,
            );
        } else {
            self.release_lease(task);
        }
        Ok(())
    }
}

} // verus!

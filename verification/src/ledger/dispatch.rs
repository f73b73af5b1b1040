//! Dispatch: eligibility of a queued Task, and its commitment to a bound Session.
use vstd::prelude::*;

use crate::contract::{
    Activity, DeliveryIntent, ObservationCheckpoint, Presence, RepositoryAccess,
    SessionReusePolicy, SupervisorEventKind, TaskSchedulingState, TaskState,
};
use crate::error::{outcome, refusal, refuse, CoordinatorError, ErrorCategory, Refusal};
use crate::identity::{HarnessSessionId, MessageId, TaskId};
use crate::ledger::binding::{binding_question, bound, selection_refusal, SessionReuseDecision};
use crate::ledger::dependencies::unmet;
use crate::ledger::evidence::{concludes, record_checkpoint, NewObservation};
use crate::ledger::steps::{add_attempt, must_be, refuse_state};
use crate::ledger::{
    find_task, held, insert_event, is_live_session, is_task, lease_owner, occupies,
    record_transition, settles, Ledger, Model,
};
use crate::rows::{
    AttemptState, BindingRow, DependencyRow, EventOrigin, HarnessKey, LeaseRow, MessageRow,
    ObservationRow, SessionRow, SnapshotRow, StoredMessageKind, TaskRow, TextKey, TransitionReason,
    Wording, WorktreeKey,
};
use crate::select::{
    count_step, count_where, first_found, first_missing, first_where, keep_step, keep_where,
    some_where, update_where,
};
use crate::text::{contains_text, has_prefix, includes, starts_with};

verus! {

// ---------------------------------------------------------------------------------------------
// Eligibility
// ---------------------------------------------------------------------------------------------

/// A Task that waits at the head or further back in the FIFO of a Worker.
pub open spec fn in_line(worker: HarnessKey) -> spec_fn(TaskRow) -> bool {
    |t: TaskRow|
        t.worker == worker && t.state == TaskState::Queued && t.scheduling
            == TaskSchedulingState::Ready
}

pub open spec fn is_online_of(harness: HarnessKey) -> spec_fn(SessionRow) -> bool {
    |s: SessionRow| s.harness == harness && !s.ended && s.presence == Presence::Online
}

/// The first reason against dispatch of a Task that its own state and the FIFO give.
pub open spec fn head_refusal(m: Model, id: TaskId) -> Option<Refusal> {
    match first_where(m.tasks, is_task(id)) {
        None => Some(refusal(ErrorCategory::NotFound, "Task does not exist"@)),
        Some(i) => if m.tasks[i].state != TaskState::Queued {
            Some(must_be(TaskState::Queued))
        } else if m.tasks[i].scheduling != TaskSchedulingState::Ready {
            Some(refusal(ErrorCategory::InvalidState, "Task dependencies are not satisfied"@))
        } else if some_where(m.tasks.take(i), in_line(m.tasks[i].worker)) {
            Some(
                refusal(
                    ErrorCategory::Conflict,
                    "an earlier Ready Task owns the Worker FIFO head"@,
                ),
            )
        } else {
            None
        },
    }
}

/// The Task that leases a worktree, with its state.
pub open spec fn lease_holder(m: Model, worktree: WorktreeKey) -> Option<TaskRow> {
    match lease_owner(m, worktree) {
        None => None,
        Some(owner) => find_task(m, owner),
    }
}

/// A read-only Task may run beside a lease whose owner is under review and which it relates to.
pub open spec fn may_read_beside(t: TaskRow, holder: TaskRow) -> bool {
    t.related == Some(holder.id) && holder.state == TaskState::Reviewing
}

pub open spec fn lease_taken() -> Refusal {
    refusal(
        ErrorCategory::RepositoryBlocked,
        "worktree already has an active mutating lease"@,
    )
}

pub open spec fn unrelated_reader() -> Refusal {
    refusal(
        ErrorCategory::RepositoryBlocked,
        "read-only Task must explicitly relate to the stably reviewing lease owner"@,
    )
}

/// The first reason against dispatch before a Session is chosen.
pub open spec fn preflight(m: Model, id: TaskId) -> Option<Refusal> {
    if head_refusal(m, id) is Some {
        head_refusal(m, id)
    } else {
        let t = find_task(m, id)->0;
        if count_where(m.sessions, is_online_of(t.worker)) != 1 {
            Some(refusal(ErrorCategory::TargetOffline, "assigned Worker is not ready"@))
        } else if some_where(m.tasks, occupies(t.worker, Some(id))) {
            Some(refusal(ErrorCategory::Conflict, "Worker already owns an active Task"@))
        } else if held(m, t.worktree) {
            Some(refusal(ErrorCategory::RepositoryBlocked, "worktree has an unresolved Hold"@))
        } else {
            match lease_holder(m, t.worktree) {
                None => None,
                Some(holder) => if t.access == RepositoryAccess::Mutating {
                    if holder.id != id {
                        Some(lease_taken())
                    } else {
                        None
                    }
                } else if may_read_beside(t, holder) {
                    None
                } else {
                    Some(unrelated_reader())
                },
            }
        }
    }
}

impl Ledger {
    fn require_head(&self, id: TaskId) -> (r: Result<usize, CoordinatorError>)
        ensures
            match head_refusal(self@, id) {
                None => r is Ok && r->Ok_0 < self.tasks.len() && first_where(
                    self@.tasks,
                    is_task(id),
                ) == Some(r->Ok_0 as int) && self.tasks@[r->Ok_0 as int].id == id,
                Some(e) => r is Err && r->Err_0@ == e,
            },
    {
        let i = match self.task_position(id) {
            None => {
                return Err(refuse(ErrorCategory::NotFound, "Task does not exist"));
            },
            Some(i) => i,
        };
        let t = self.tasks[i];
        if t.state != TaskState::Queued {
            return Err(refuse_state(TaskState::Queued));
        }
        if t.scheduling != TaskSchedulingState::Ready {
            return Err(
                refuse(ErrorCategory::InvalidState, "Task dependencies are not satisfied"),
            );
        }
        let mut k: usize = 0;
        while k < i
            invariant
                k <= i,
                i < self.tasks.len(),
                t == self.tasks@[i as int],
                first_where(self@.tasks, is_task(id)) == Some(i as int),
                t.state == TaskState::Queued,
                t.scheduling == TaskSchedulingState::Ready,
                forall|j: int|
                    0 <= j < k ==> !in_line(t.worker)(#[trigger] self.tasks@.take(i as int)[j]),
            decreases i - k,
        {
            let e = self.tasks[k];
            if e.worker == t.worker && e.state == TaskState::Queued && e.scheduling
                == TaskSchedulingState::Ready {
                assert(in_line(t.worker)(self@.tasks.take(i as int)[k as int]));
                return Err(
                    refuse(
                        ErrorCategory::Conflict,
                        "an earlier Ready Task owns the Worker FIFO head",
                    ),
                );
            }
            k += 1;
        }
        Ok(i)
    }

    fn is_alone_online(&self, harness: HarnessKey) -> (r: bool)
        ensures
            r == (count_where(self@.sessions, is_online_of(harness)) == 1),
    {
        let mut n: usize = 0;
        let mut i: usize = 0;
        while i < self.sessions.len()
            invariant
                i <= self.sessions.len(),
                n <= i,
                n == count_where(self@.sessions.take(i as int), is_online_of(harness)),
            decreases self.sessions.len() - i,
        {
            proof {
                count_step(self@.sessions, is_online_of(harness), i as int);
            }
            let s = self.sessions[i];
            if s.harness == harness && !s.ended && s.presence == Presence::Online {
                n += 1;
            }
            i += 1;
        }
        assert(self@.sessions.take(i as int) =~= self@.sessions);
        n == 1
    }

    fn lease_holder(&self, worktree: WorktreeKey) -> (r: Option<TaskRow>)
        ensures
            r == lease_holder(self@, worktree),
    {
        match self.lease_owner(worktree) {
            None => None,
            Some(owner) => self.task(owner),
        }
    }

    /// Whether a Task may be dispatched, before a Session is chosen.
    pub fn preflight_dispatch(&self, id: TaskId) -> (r: Result<(), CoordinatorError>)
        ensures
            match preflight(self@, id) {
                None => r is Ok,
                Some(e) => r is Err && r->Err_0@ == e,
            },
    {
        let i = match self.require_head(id) {
            Err(e) => {
                return Err(e);
            },
            Ok(i) => i,
        };
        let t = self.tasks[i];
        if !self.is_alone_online(t.worker) {
            return Err(refuse(ErrorCategory::TargetOffline, "assigned Worker is not ready"));
        }
        if self.is_occupied(t.worker, Some(id)) {
            return Err(refuse(ErrorCategory::Conflict, "Worker already owns an active Task"));
        }
        if self.is_held(t.worktree) {
            return Err(
                refuse(ErrorCategory::RepositoryBlocked, "worktree has an unresolved Hold"),
            );
        }
        match self.lease_holder(t.worktree) {
            None => Ok(()),
            Some(holder) => if t.access == RepositoryAccess::Mutating {
                if holder.id != id {
                    Err(
                        refuse(
                            ErrorCategory::RepositoryBlocked,
                            "worktree already has an active mutating lease",
                        ),
                    )
                } else {
                    Ok(())
                }
            } else if self.reads_beside(t, holder) {
                Ok(())
            } else {
                Err(
                    refuse(
                        ErrorCategory::RepositoryBlocked,
                        "read-only Task must explicitly relate to the stably reviewing lease owner",
                    ),
                )
            },
        }
    }

    fn reads_beside(&self, t: TaskRow, holder: TaskRow) -> (r: bool)
        ensures
            r == may_read_beside(t, holder),
    {
        let related = match t.related {
            Some(id) => id == holder.id,
            None => false,
        };
        related && holder.state == TaskState::Reviewing
    }
}

// ---------------------------------------------------------------------------------------------
// Commitment
// ---------------------------------------------------------------------------------------------

/// A binding whose Session can take the Task now.
pub open spec fn is_usable_binding(m: Model, id: TaskId, worker: HarnessKey) -> spec_fn(
    BindingRow,
) -> bool {
    |b: BindingRow|
        b.task == id && !b.superseded && (match first_where(
            m.sessions,
            is_live_session(b.session),
        ) {
            None => false,
            Some(i) => m.sessions[i].harness == worker && m.sessions[i].presence
                == Presence::Online && m.sessions[i].activity == Activity::Idle,
        })
}

pub open spec fn is_root_message(id: TaskId) -> spec_fn(MessageRow) -> bool {
    |x: MessageRow| x.task == Some(id) && x.kind == StoredMessageKind::Task
}

pub open spec fn is_dependency_of(id: TaskId) -> spec_fn(DependencyRow) -> bool {
    |d: DependencyRow| d.task == id
}

pub open spec fn bind(d: DependencyRow) -> DependencyRow {
    DependencyRow { bound: true, ..d }
}

pub open spec fn is_lease_row(worktree: WorktreeKey) -> spec_fn(LeaseRow) -> bool {
    |l: LeaseRow| l.worktree == worktree
}

/// A mutating Task that has to take the lease of its worktree.
pub open spec fn needs_lease(m: Model, t: TaskRow) -> bool {
    t.access == RepositoryAccess::Mutating && lease_owner(m, t.worktree) is None
}

/// The lease row of a worktree given to a Task.
pub open spec fn take_lease(m: Model, worktree: WorktreeKey, id: TaskId) -> Model {
    let row = LeaseRow { worktree, task: id, released: false };
    match first_where(m.leases, is_lease_row(worktree)) {
        Some(i) => Model { leases: m.leases.update(i, row), ..m },
        None => Model { leases: m.leases.push(row), ..m },
    }
}

/// Why the worktree is closed to a Task; `lock` is the refusal of the operating system's lock,
/// which only a Task that has to take the lease asks for.
pub open spec fn worktree_refusal(m: Model, t: TaskRow, lock: Option<Refusal>) -> Option<Refusal> {
    if t.access == RepositoryAccess::Mutating {
        if held(m, t.worktree) {
            Some(refusal(ErrorCategory::RepositoryBlocked, "worktree has an unresolved Hold"@))
        } else {
            match lease_owner(m, t.worktree) {
                Some(owner) => if owner != t.id {
                    Some(lease_taken())
                } else {
                    None
                },
                None => lock,
            }
        }
    } else if held(m, t.worktree) {
        Some(
            refusal(
                ErrorCategory::RepositoryBlocked,
                "read-only Task cannot dispatch while the worktree has an unresolved Hold"@,
            ),
        )
    } else {
        match lease_holder(m, t.worktree) {
            None => None,
            Some(holder) => if may_read_beside(t, holder) {
                None
            } else {
                Some(unrelated_reader())
            },
        }
    }
}

/// The tables after a committed dispatch.
pub open spec fn dispatched(
    m: Model,
    i: int,
    session: HarnessSessionId,
    message: MessageId,
) -> Model {
    let t = m.tasks[i];
    let leased = if needs_lease(m, t) {
        take_lease(m, t.worktree, t.id)
    } else {
        m
    };
    add_attempt(
        record_transition(
            Model {
                dependencies: update_where(
                    m.dependencies,
                    is_dependency_of(t.id),
                    |d: DependencyRow| bind(d),
                ),
                tasks: m.tasks.update(
                    i,
                    TaskRow {
                        state: TaskState::Dispatching,
                        active_session: Some(session),
                        ..t
                    },
                ),
                ..leased
            },
            t.id,
            TaskState::Queued,
            TaskState::Dispatching,
            TransitionReason::Plain,
        ),
        message,
        Some(session),
        AttemptState::Dispatching,
    )
}

/// Commitment of a queued Task to its bound Session, with its root Message.
pub open spec fn commit_dispatch(m: Model, id: TaskId, lock: Option<Refusal>) -> Result<
    (Model, MessageId),
    Refusal,
> {
    if head_refusal(m, id) is Some {
        Err(head_refusal(m, id)->0)
    } else {
        let i = first_where(m.tasks, is_task(id))->0;
        let t = m.tasks[i];
        match first_where(m.bindings, is_usable_binding(m, id, t.worker)) {
            None => Err(
                refusal(ErrorCategory::TargetOffline, "bound Worker Session is unavailable"@),
            ),
            Some(b) => if some_where(m.tasks, occupies(t.worker, Some(id))) {
                Err(refusal(ErrorCategory::Conflict, "Worker already owns an active Task"@))
            } else if worktree_refusal(m, t, lock) is Some {
                Err(worktree_refusal(m, t, lock)->0)
            } else {
                match first_where(m.messages, is_root_message(id)) {
                    None => Err(
                        refusal(
                            ErrorCategory::StorageFailure,
                            "Task has no root Message"@,
                        ),
                    ),
                    Some(x) => if unmet(m, id) {
                        Err(
                            refusal(
                                ErrorCategory::InvalidState,
                                "Task dependencies changed before dispatch"@,
                            ),
                        )
                    } else {
                        Ok(
                            (
                                dispatched(m, i, m.bindings[b].session, m.messages[x].id),
                                m.messages[x].id,
                            ),
                        )
                    },
                }
            },
        }
    }
}

/// View of an optional error.
pub open spec fn optional_refusal(e: Option<CoordinatorError>) -> Option<Refusal> {
    match e {
        Some(e) => Some(e@),
        None => None,
    }
}

impl Ledger {
    fn usable_binding(&self, id: TaskId, worker: HarnessKey) -> (r: Option<HarnessSessionId>)
        ensures
            r == (match first_where(self@.bindings, is_usable_binding(self@, id, worker)) {
                Some(i) => Some(self@.bindings[i].session),
                None => None,
            }),
    {
        let mut i: usize = 0;
        while i < self.bindings.len()
            invariant
                i <= self.bindings.len(),
                forall|j: int|
                    0 <= j < i ==> !is_usable_binding(self@, id, worker)(
                        #[trigger] self.bindings@[j],
                    ),
            decreases self.bindings.len() - i,
        {
            let b = self.bindings[i];
            if b.task == id && !b.superseded {
                let usable = match self.live_session_position(b.session) {
                    None => false,
                    Some(k) => self.sessions[k].harness == worker && self.sessions[k].presence
                        == Presence::Online && self.sessions[k].activity == Activity::Idle,
                };
                if usable {
                    proof {
                        first_found(
                            self@.bindings,
                            is_usable_binding(self@, id, worker),
                            i as int,
                        );
                    }
                    return Some(b.session);
                }
            }
            i += 1;
        }
        proof {
            first_missing(self@.bindings, is_usable_binding(self@, id, worker));
        }
        None
    }

    /// The root Message of a Task.
    pub fn root_message(&self, id: TaskId) -> (r: Option<MessageId>)
        ensures
            r == (match first_where(self@.messages, is_root_message(id)) {
                Some(i) => Some(self@.messages[i].id),
                None => None,
            }),
    {
        let mut i: usize = 0;
        while i < self.messages.len()
            invariant
                i <= self.messages.len(),
                forall|j: int| 0 <= j < i ==> !is_root_message(id)(#[trigger] self.messages@[j]),
            decreases self.messages.len() - i,
        {
            let x = self.messages[i];
            let of_task = match x.task {
                Some(t) => t == id,
                None => false,
            };
            if of_task && x.kind == StoredMessageKind::Task {
                proof {
                    first_found(self@.messages, is_root_message(id), i as int);
                }
                return Some(x.id);
            }
            i += 1;
        }
        proof {
            first_missing(self@.messages, is_root_message(id));
        }
        None
    }

    /// Whether the dispatch of a Task has to take the lease, and with it the operating system's
    /// lock, of its worktree.
    pub fn dispatch_needs_lease(&self, id: TaskId) -> (r: Option<WorktreeKey>)
        ensures
            r == (match find_task(self@, id) {
                Some(t) => if needs_lease(self@, t) {
                    Some(t.worktree)
                } else {
                    None
                },
                None => None,
            }),
    {
        match self.task(id) {
            None => None,
            Some(t) => if t.access == RepositoryAccess::Mutating && self.lease_owner(
                t.worktree,
            ).is_none() {
                Some(t.worktree)
            } else {
                None
            },
        }
    }

    fn take_lease(&mut self, worktree: WorktreeKey, id: TaskId)
        ensures
            final(self)@ == take_lease(old(self)@, worktree, id),
    {
        let row = LeaseRow { worktree, task: id, released: false };
        let mut i: usize = 0;
        while i < self.leases.len()
            invariant
                i <= self.leases.len(),
                self@ == old(self)@,
                row == (LeaseRow { worktree, task: id, released: false }),
                forall|j: int| 0 <= j < i ==> !is_lease_row(worktree)(#[trigger] self.leases@[j]),
            decreases self.leases.len() - i,
        {
            if self.leases[i].worktree == worktree {
                proof {
                    first_found(self@.leases, is_lease_row(worktree), i as int);
                }
                self.leases.set(i, row);
                return ;
            }
            i += 1;
        }
        proof {
            first_missing(self@.leases, is_lease_row(worktree));
        }
        self.leases.push(row);
    }

    fn bind_dependencies(&mut self, id: TaskId)
        ensures
            final(self)@ == (Model {
                dependencies: update_where(
                    old(self)@.dependencies,
                    is_dependency_of(id),
                    |d: DependencyRow| bind(d),
                ),
                ..old(self)@
            }),
    {
        let n = self.dependencies.len();
        let mut i: usize = 0;
        while i < n
            invariant
                i <= n,
                n == self.dependencies.len(),
                n == old(self).dependencies.len(),
                self@ == (Model { dependencies: self.dependencies@, ..old(self)@ }),
                forall|j: int|
                    0 <= j < i ==> #[trigger] self.dependencies@[j] == (if is_dependency_of(id)(
                        old(self).dependencies@[j],
                    ) {
                        bind(old(self).dependencies@[j])
                    } else {
                        old(self).dependencies@[j]
                    }),
                forall|j: int|
                    i <= j < n ==> #[trigger] self.dependencies@[j] == old(self).dependencies@[j],
            decreases n - i,
        {
            let d = self.dependencies[i];
            if d.task == id {
                self.dependencies.set(i, DependencyRow { bound: true, ..d });
            }
            i += 1;
        }
        assert(self.dependencies@ =~= update_where(
            old(self).dependencies@,
            is_dependency_of(id),
            |d: DependencyRow| bind(d),
        ));
    }

    fn require_open_worktree(&self, t: TaskRow, lock: Option<CoordinatorError>) -> (r: Result<
        (),
        CoordinatorError,
    >)
        ensures
            match worktree_refusal(self@, t, optional_refusal(lock)) {
                None => r is Ok,
                Some(e) => r is Err && r->Err_0@ == e,
            },
    {
        if t.access == RepositoryAccess::Mutating {
            if self.is_held(t.worktree) {
                return Err(
                    refuse(ErrorCategory::RepositoryBlocked, "worktree has an unresolved Hold"),
                );
            }
            match self.lease_owner(t.worktree) {
                Some(owner) => if owner != t.id {
                    Err(
                        refuse(
                            ErrorCategory::RepositoryBlocked,
                            "worktree already has an active mutating lease",
                        ),
                    )
                } else {
                    Ok(())
                },
                None => match lock {
                    Some(e) => Err(e),
                    None => Ok(()),
                },
            }
        } else {
            if self.is_held(t.worktree) {
                return Err(
                    refuse(
                        ErrorCategory::RepositoryBlocked,
                        "read-only Task cannot dispatch while the worktree has an unresolved Hold",
                    ),
                );
            }
            match self.lease_holder(t.worktree) {
                None => Ok(()),
                Some(holder) => if self.reads_beside(t, holder) {
                    Ok(())
                } else {
                    Err(
                        refuse(
                            ErrorCategory::RepositoryBlocked,
                            "read-only Task must explicitly relate to the stably reviewing lease owner",
                        ),
                    )
                },
            }
        }
    }

    /// Commits a queued Task to its bound Session.
    pub fn commit_dispatch(&mut self, id: TaskId, lock: Option<CoordinatorError>) -> (r: Result<
        MessageId,
        CoordinatorError,
    >)
        ensures
            settles(
                r,
                old(self)@,
                final(self)@,
                commit_dispatch(old(self)@, id, optional_refusal(lock)),
            ),
    {
        let i = match self.require_head(id) {
            Err(e) => {
                return Err(e);
            },
            Ok(i) => i,
        };
        let t = self.tasks[i];
        let session = match self.usable_binding(id, t.worker) {
            None => {
                return Err(
                    refuse(ErrorCategory::TargetOffline, "bound Worker Session is unavailable"),
                );
            },
            Some(session) => session,
        };
        if self.is_occupied(t.worker, Some(id)) {
            return Err(refuse(ErrorCategory::Conflict, "Worker already owns an active Task"));
        }
        match self.require_open_worktree(t, lock) {
            Err(e) => {
                return Err(e);
            },
            Ok(_) => {},
        }
        let message = match self.root_message(id) {
            None => {
                return Err(refuse(ErrorCategory::StorageFailure, "Task has no root Message"));
            },
            Some(message) => message,
        };
        if self.has_unmet(id) {
            return Err(
                refuse(ErrorCategory::InvalidState, "Task dependencies changed before dispatch"),
            );
        }
        if t.access == RepositoryAccess::Mutating && self.lease_owner(t.worktree).is_none() {
            self.take_lease(t.worktree, id);
        }
        self.bind_dependencies(id);
        self.tasks.set(
            i,
            TaskRow { state: TaskState::Dispatching, active_session: Some(session), ..t },
        );
        self.record_transition(
            id,
            TaskState::Queued,
            TaskState::Dispatching,
            TransitionReason::Plain,
        );
        self.add_attempt(message, Some(session), AttemptState::Dispatching);
        Ok(message)
    }
}

// ---------------------------------------------------------------------------------------------
// A dispatch that failed after its baseline was captured
// ---------------------------------------------------------------------------------------------

/// Failures of a commitment after which the baseline is captured anew.
pub open spec fn discards_baseline(category: ErrorCategory) -> bool {
    category == ErrorCategory::RepositoryBlocked || category == ErrorCategory::Conflict || category
        == ErrorCategory::TargetOffline || category == ErrorCategory::InvalidState
}

pub fn is_baseline_discarded(category: ErrorCategory) -> (r: bool)
    ensures
        r == discards_baseline(category),
{
    category == ErrorCategory::RepositoryBlocked || category == ErrorCategory::Conflict || category
        == ErrorCategory::TargetOffline || category == ErrorCategory::InvalidState
}

pub open spec fn is_kept_observation(id: TaskId) -> spec_fn(ObservationRow) -> bool {
    |o: ObservationRow| !(o.task == id && o.checkpoint == ObservationCheckpoint::BeforeDispatch)
}

pub open spec fn is_kept_snapshot(id: TaskId) -> spec_fn(SnapshotRow) -> bool {
    |s: SnapshotRow| !(s.task == id && s.checkpoint == ObservationCheckpoint::BeforeDispatch)
}

/// The baseline of a Task that is still queued removed.
pub open spec fn discard_baseline(m: Model, id: TaskId) -> Model {
    match find_task(m, id) {
        Some(t) if t.state == TaskState::Queued => Model {
            observations: keep_where(m.observations, is_kept_observation(id)),
            snapshots: keep_where(m.snapshots, is_kept_snapshot(id)),
            ..m
        },
        _ => m,
    }
}

impl Ledger {
    /// Removes the baseline of a Task that is still queued.
    pub fn cleanup_failed_dispatch_baseline(&mut self, id: TaskId)
        ensures
            final(self)@ == discard_baseline(old(self)@, id),
    {
        let still_queued = match self.task(id) {
            Some(t) => t.state == TaskState::Queued,
            None => false,
        };
        if !still_queued {
            return ;
        }
        let mut observations: Vec<ObservationRow> = Vec::new();
        let mut i: usize = 0;
        while i < self.observations.len()
            invariant
                i <= self.observations.len(),
                self@ == old(self)@,
                observations@ == keep_where(
                    self@.observations.take(i as int),
                    is_kept_observation(id),
                ),
            decreases self.observations.len() - i,
        {
            proof {
                keep_step(self@.observations, is_kept_observation(id), i as int);
            }
            let o = self.observations[i];
            if !(o.task == id && o.checkpoint == ObservationCheckpoint::BeforeDispatch) {
                observations.push(o);
            }
            i += 1;
        }
        assert(self@.observations.take(i as int) =~= self@.observations);
        let mut snapshots: Vec<SnapshotRow> = Vec::new();
        let mut k: usize = 0;
        while k < self.snapshots.len()
            invariant
                k <= self.snapshots.len(),
                self@ == old(self)@,
                snapshots@ == keep_where(self@.snapshots.take(k as int), is_kept_snapshot(id)),
            decreases self.snapshots.len() - k,
        {
            proof {
                keep_step(self@.snapshots, is_kept_snapshot(id), k as int);
            }
            let s = self.snapshots[k];
            if !(s.task == id && s.checkpoint == ObservationCheckpoint::BeforeDispatch) {
                snapshots.push(s);
            }
            k += 1;
        }
        assert(self@.snapshots.take(k as int) =~= self@.snapshots);
        self.observations = observations;
        self.snapshots = snapshots;
    }
}

// ---------------------------------------------------------------------------------------------
// The whole dispatch
// ---------------------------------------------------------------------------------------------

/// What the outside world says to a dispatch.
#[derive(Debug)]
pub struct DispatchFacts {
    /// The policy that the Task's submission comes to.
    pub policy: SessionReusePolicy,
    /// The verdict of the reuse rules on the Session in question.
    pub decision: SessionReuseDecision,
    /// The baseline of the worktree, or why there is none.
    pub captured: Result<NewObservation, CoordinatorError>,
    /// The refusal of the worktree lock.
    pub lock: Option<CoordinatorError>,
}

pub struct DispatchView {
    pub policy: SessionReusePolicy,
    pub reusable: bool,
    pub judged: SessionReusePolicy,
    pub code: TextKey,
    pub words: TextKey,
    pub reason: Seq<char>,
    pub reason_code: Seq<char>,
    pub captured: Result<NewObservation, Refusal>,
    pub lock: Option<Refusal>,
}

impl View for DispatchFacts {
    type V = DispatchView;

    open spec fn view(&self) -> DispatchView {
        DispatchView {
            policy: self.policy,
            reusable: self.decision.reusable,
            judged: self.decision.effective_policy,
            code: self.decision.code,
            words: self.decision.words,
            reason: self.decision.reason@,
            reason_code: self.decision.reason_code@,
            captured: outcome(self.captured),
            lock: optional_refusal(self.lock),
        }
    }
}

/// The commitment of a Task whose baseline was captured: where it fails for a reason that may
/// pass, the baseline goes again.
pub open spec fn commit_or_discard(m: Model, id: TaskId, lock: Option<Refusal>) -> (
    Model,
    Result<MessageId, Refusal>,
) {
    match commit_dispatch(m, id, lock) {
        Ok((next, message)) => (next, Ok(message)),
        Err(e) => (
            if discards_baseline(e.category) {
                discard_baseline(m, id)
            } else {
                m
            },
            Err(e),
        ),
    }
}

/// A dispatch: eligibility, a Session, a baseline of the worktree, and the commitment, each only
/// after the one before. A Session that was bound or given up on the way stays so.
pub open spec fn dispatch_task(m: Model, id: TaskId, f: DispatchView) -> (
    Model,
    Result<MessageId, Refusal>,
) {
    match (preflight(m, id), binding_question(m, id, f.policy)) {
        (Some(e), _) => (m, Err(e)),
        (None, Err(e)) => (m, Err(e)),
        (None, Ok(q)) => {
            let requested = find_task(m, id)->0.policy;
            let chosen = bound(
                m,
                id,
                requested,
                f.policy,
                q,
                f.reusable,
                f.judged,
                f.code,
                f.words,
            );
            if !f.reusable {
                (chosen, Err(selection_refusal(requested, q, f.reason, f.reason_code)))
            } else {
                match record_checkpoint(
                    chosen,
                    id,
                    ObservationCheckpoint::BeforeDispatch,
                    f.captured,
                ) {
                    Err(e) => (chosen, Err(e)),
                    Ok(seen) => commit_or_discard(seen, id, f.lock),
                }
            }
        },
    }
}

impl Ledger {
    /// Dispatches a queued Task: finds it eligible, binds its Session, keeps a baseline of its
    /// worktree and commits it.
    pub fn dispatch_task(&mut self, id: TaskId, facts: DispatchFacts) -> (r: Result<
        MessageId,
        CoordinatorError,
    >)
        ensures
            concludes(r, final(self)@, dispatch_task(old(self)@, id, facts@)),
    {
        match self.preflight_dispatch(id) {
            Err(e) => {
                return Err(e);
            },
            Ok(_) => {},
        }
        let q = match self.binding_question(id, facts.policy) {
            Err(e) => {
                return Err(e);
            },
            Ok(q) => q,
        };
        let requested = match self.task(id) {
            None => {
                return Err(refuse(ErrorCategory::NotFound, "Task does not exist"));
            },
            Some(t) => t.policy,
        };
        match self.settle_task_session_binding(
            id,
            requested,
            facts.policy,
            q,
            &facts.decision,
        ) {
            Err(e) => {
                return Err(e);
            },
            Ok(_) => {},
        }
        match self.capture_repository_checkpoint(
            id,
            ObservationCheckpoint::BeforeDispatch,
            facts.captured,
        ) {
            Err(e) => {
                return Err(e);
            },
            Ok(_) => {},
        }
        match self.commit_dispatch(id, facts.lock) {
            Ok(message) => Ok(message),
            Err(e) => {
                if is_baseline_discarded(e.category) {
                    self.cleanup_failed_dispatch_baseline(id);
                }
                Err(e)
            },
        }
    }
}

// ---------------------------------------------------------------------------------------------
// Claiming work
// ---------------------------------------------------------------------------------------------

/// The Task that an idle Worker takes next: the head of its FIFO.
pub open spec fn next_claim(m: Model, worker: HarnessKey) -> Option<TaskId> {
    if some_where(m.tasks, occupies(worker, None)) {
        None
    } else {
        match first_where(m.tasks, in_line(worker)) {
            Some(i) => Some(m.tasks[i].id),
            None => None,
        }
    }
}

/// Required reuse can be rescued by one native compaction.
pub open spec fn compaction_available(m: Model, session: HarnessSessionId) -> bool {
    match first_where(m.sessions, is_live_session(session)) {
        None => false,
        Some(i) => m.sessions[i].safe_compaction && (match m.sessions[i].compactions {
            Some(n) => n == 0,
            None => true,
        }),
    }
}

/// What a claim comes to.
#[derive(Debug, Clone, Copy, PartialEq, Eq, Structural)]
pub enum ClaimOutcome {
    /// The Task is being delivered.
    Dispatching { task: TaskId, message: MessageId },
    /// Nothing can be done now.
    NoTaskAvailable,
    /// The Worker Host must rotate its Session before retrying.
    RotationRequired { task: TaskId },
    /// One native compaction is needed before retrying.
    CompactionRequired { task: TaskId },
}

/// A dispatch refused for the choice of its Session.
pub open spec fn selection_blocked(e: Refusal) -> bool {
    has_prefix(e.message, "Session selection blocked:"@)
}

/// How a dispatch is answered to the claiming Worker: refusals that waiting or another Session
/// may cure are no failures; a Session that cannot be cured is brought to the Supervisor, in the
/// words of `why`.
pub open spec fn claim(
    m: Model,
    session: HarnessSessionId,
    task: TaskId,
    dispatch: Result<MessageId, Refusal>,
    why: Wording,
) -> Result<(Model, ClaimOutcome), Refusal> {
    match dispatch {
        Ok(message) => Ok((m, ClaimOutcome::Dispatching { task, message })),
        Err(e) => if e.category == ErrorCategory::TargetOffline && selection_blocked(e) {
            Ok((m, ClaimOutcome::RotationRequired { task }))
        } else if e.category == ErrorCategory::InvalidState && selection_blocked(e) {
            if contains_text(e.message, "(context_pressure)"@) && compaction_available(m, session) {
                Ok((m, ClaimOutcome::CompactionRequired { task }))
            } else {
                Ok(
                    (
                        insert_event(
                            m,
                            SupervisorEventKind::Notification,
                            Some(task),
                            None,
                            None,
                            EventOrigin::SessionBlocked { task },
                            DeliveryIntent::FollowUp,
                            Some(why),
                        ),
                        ClaimOutcome::NoTaskAvailable,
                    ),
                )
            }
        } else if e.category == ErrorCategory::RepositoryBlocked || e.category
            == ErrorCategory::TargetOffline {
            Ok((m, ClaimOutcome::NoTaskAvailable))
        } else {
            Err(e)
        },
    }
}

/// The words of a verdict against a Session.
pub open spec fn blocked_words(f: DispatchView) -> Wording {
    Wording::SelectionBlocked { reason: f.words, code: f.code }
}

/// A claim: the head of an idle Worker's FIFO goes through dispatch, and the Worker is answered.
pub open spec fn claim_next(
    m: Model,
    worker: HarnessKey,
    session: HarnessSessionId,
    f: DispatchView,
) -> (Model, Result<ClaimOutcome, Refusal>) {
    match next_claim(m, worker) {
        None => (m, Ok(ClaimOutcome::NoTaskAvailable)),
        Some(task) => {
            let (next, dispatch) = dispatch_task(m, task, f);
            match claim(next, session, task, dispatch, blocked_words(f)) {
                Ok((after, answer)) => (after, Ok(answer)),
                Err(e) => (next, Err(e)),
            }
        },
    }
}

impl Ledger {
    /// The Task that an idle Worker takes next.
    pub fn next_claim(&self, worker: HarnessKey) -> (r: Option<TaskId>)
        ensures
            r == next_claim(self@, worker),
    {
        if self.is_occupied(worker, None) {
            return None;
        }
        let mut i: usize = 0;
        while i < self.tasks.len()
            invariant
                i <= self.tasks.len(),
                !some_where(self@.tasks, occupies(worker, None)),
                forall|j: int| 0 <= j < i ==> !in_line(worker)(#[trigger] self.tasks@[j]),
            decreases self.tasks.len() - i,
        {
            let t = self.tasks[i];
            if t.worker == worker && t.state == TaskState::Queued && t.scheduling
                == TaskSchedulingState::Ready {
                proof {
                    first_found(self@.tasks, in_line(worker), i as int);
                }
                return Some(t.id);
            }
            i += 1;
        }
        proof {
            first_missing(self@.tasks, in_line(worker));
        }
        None
    }

    /// Whether required reuse can be rescued by one native compaction.
    pub fn required_compaction_available(&self, session: HarnessSessionId) -> (r: bool)
        ensures
            r == compaction_available(self@, session),
    {
        match self.live_session_position(session) {
            None => false,
            Some(i) => {
                let s = self.sessions[i];
                let untouched = match s.compactions {
                    Some(n) => n == 0,
                    None => true,
                };
                s.safe_compaction && untouched
            },
        }
    }

    /// Answers the claim of a Worker whose Task went through dispatch.
    pub fn settle_claim(
        &mut self,
        session: HarnessSessionId,
        task: TaskId,
        dispatch: Result<MessageId, CoordinatorError>,
        why: Wording,
    ) -> (r: Result<ClaimOutcome, CoordinatorError>)
        ensures
            settles(
                r,
                old(self)@,
                final(self)@,
                claim(old(self)@, session, task, crate::error::outcome(dispatch), why),
            ),
    {
        match dispatch {
            Ok(message) => Ok(ClaimOutcome::Dispatching { task, message }),
            Err(e) => {
                let blocked = starts_with(e.message.as_str(), "Session selection blocked:");
                if e.category == ErrorCategory::TargetOffline && blocked {
                    Ok(ClaimOutcome::RotationRequired { task })
                } else if e.category == ErrorCategory::InvalidState && blocked {
                    if includes(e.message.as_str(), "(context_pressure)")
                        && self.required_compaction_available(session) {
                        return Ok(ClaimOutcome::CompactionRequired { task });
                    }
                    self.insert_event(
                        SupervisorEventKind::Notification,
                        Some(task),
                        None,
                        None,
                        EventOrigin::SessionBlocked { task },
                        DeliveryIntent::FollowUp,
                        Some(why),
                    );
                    Ok(ClaimOutcome::NoTaskAvailable)
                } else if e.category == ErrorCategory::RepositoryBlocked || e.category
                    == ErrorCategory::TargetOffline {
                    Ok(ClaimOutcome::NoTaskAvailable)
                } else {
                    Err(e)
                }
            },
        }
    }

    /// Dispatches the head of an idle Worker's FIFO and answers the Worker.
    pub fn claim_next_task(
        &mut self,
        worker: HarnessKey,
        session: HarnessSessionId,
        facts: DispatchFacts,
    ) -> (r: Result<ClaimOutcome, CoordinatorError>)
        ensures
            concludes(r, final(self)@, claim_next(old(self)@, worker, session, facts@)),
    {
        match self.next_claim(worker) {
            None => Ok(ClaimOutcome::NoTaskAvailable),
            Some(task) => {
                let why = Wording::SelectionBlocked {
                    reason: facts.decision.words,
                    code: facts.decision.code,
                };
                let dispatch = self.dispatch_task(task, facts);
                self.settle_claim(session, task, dispatch, why)
            },
        }
    }
}

} // verus!

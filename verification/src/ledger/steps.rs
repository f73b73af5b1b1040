//! Steps shared by several commands: exact transitions, Holds, leases, attempts, read marks and
//! the settlement of matching events.
use vstd::prelude::*;

use crate::contract::{SupervisorEventDeliveryState, SupervisorEventKind, TaskState};
use crate::error::{refusal, refuse, CoordinatorError, ErrorCategory, Refusal};
use crate::identity::{HarnessSessionId, MessageId, TaskId, WorktreeHoldId};
use crate::ledger::{held, is_message, is_task, record_transition, settles, Ledger, Model};
use crate::rows::{
    AttemptRow, AttemptState, EventRow, HarnessKey, HoldReason, HoldRow, LeaseRow, ReadRow,
    TaskRow, TransitionReason, WorktreeKey,
};
use crate::select::{first_where, some_where, update_where};
use crate::text::join;

verus! {

// ---------------------------------------------------------------------------------------------
// Exact transitions
// ---------------------------------------------------------------------------------------------

/// The refusal of a Task that is not in the expected state.
pub open spec fn must_be(state: TaskState) -> Refusal {
    refusal(ErrorCategory::InvalidState, "Task must be "@ + state.name())
}

/// The refusal of a Result revision beyond the persisted range.
pub open spec fn revision_overflow() -> Refusal {
    refusal(
        ErrorCategory::StorageFailure,
        "out of range integral type conversion attempted"@,
    )
}

/// Moves a Task from exactly one state to another; `bump` opens a new Result revision.
pub open spec fn transition(
    m: Model,
    id: TaskId,
    from: TaskState,
    to: TaskState,
    bump: bool,
) -> Result<Model, Refusal> {
    match first_where(m.tasks, is_task(id)) {
        None => Err(must_be(from)),
        Some(i) => {
            let t = m.tasks[i];
            if t.state != from {
                Err(must_be(from))
            } else if bump && t.revision == u32::MAX {
                Err(revision_overflow())
            } else {
                Ok(
                    record_transition(
                        Model {
                            tasks: m.tasks.update(
                                i,
                                TaskRow {
                                    state: to,
                                    revision: if bump {
                                        (t.revision + 1) as u32
                                    } else {
                                        t.revision
                                    },
                                    ..t
                                },
                            ),
                            ..m
                        },
                        id,
                        from,
                        to,
                        TransitionReason::Plain,
                    ),
                )
            }
        },
    }
}

/// A result without a value, for [`settles`].
pub open spec fn plain(r: Result<Model, Refusal>) -> Result<(Model, ()), Refusal> {
    match r {
        Ok(m) => Ok((m, ())),
        Err(e) => Err(e),
    }
}

pub fn refuse_state(state: TaskState) -> (r: CoordinatorError)
    ensures
        r@ == must_be(state),
{
    CoordinatorError::new(ErrorCategory::InvalidState, join("Task must be ", state.as_str()))
}

/// Requires a Task state.
pub fn require_state(actual: TaskState, expected: TaskState) -> (r: Result<(), CoordinatorError>)
    ensures
        match r {
            Ok(_) => actual == expected,
            Err(e) => actual != expected && e@ == must_be(expected),
        },
{
    if actual == expected {
        Ok(())
    } else {
        Err(refuse_state(expected))
    }
}

impl Ledger {
    /// Moves a Task from exactly one state to another.
    pub fn transition_exact(
        &mut self,
        id: TaskId,
        from: TaskState,
        to: TaskState,
        bump: bool,
    ) -> (r: Result<(), CoordinatorError>)
        ensures
            settles(r, old(self)@, final(self)@, plain(transition(old(self)@, id, from, to, bump))),
    {
        match self.task_position(id) {
            None => Err(refuse_state(from)),
            Some(i) => {
                let t = self.tasks[i];
                if t.state != from {
                    return Err(refuse_state(from));
                }
                if bump && t.revision == u32::MAX {
                    return Err(
                        refuse(
                            ErrorCategory::StorageFailure,
                            "out of range integral type conversion attempted",
                        ),
                    );
                }
                let revision: u32 = if bump {
                    t.revision + 1
                } else {
                    t.revision
                };
                self.tasks.set(i, TaskRow { state: to, revision, ..t });
                self.record_transition(id, from, to, TransitionReason::Plain);
                Ok(())
            },
        }
    }
}

// ---------------------------------------------------------------------------------------------
// Holds and leases
// ---------------------------------------------------------------------------------------------

/// A new Hold on a worktree that has none.
pub open spec fn push_hold(
    m: Model,
    worktree: WorktreeKey,
    task: TaskId,
    reason: HoldReason,
) -> Model {
    Model {
        holds: m.holds.push(
            HoldRow {
                id: WorktreeHoldId(m.holds.len() as u128),
                worktree,
                task,
                reason,
                cleared: false,
                observation: None,
                note: None,
            },
        ),
        ..m
    }
}

/// A Hold on a worktree, unless it is held already.
pub open spec fn add_hold(
    m: Model,
    worktree: WorktreeKey,
    task: TaskId,
    reason: HoldReason,
) -> Model {
    if held(m, worktree) {
        m
    } else {
        push_hold(m, worktree, task, reason)
    }
}

/// The refusal of a second active Hold on a worktree.
pub open spec fn held_already() -> Refusal {
    refusal(ErrorCategory::StorageFailure, "worktree already has an active Hold"@)
}

/// The lease of a Task.
pub open spec fn is_lease_of(task: TaskId) -> spec_fn(LeaseRow) -> bool {
    |l: LeaseRow| l.task == task && !l.released
}

pub open spec fn released(l: LeaseRow) -> LeaseRow {
    LeaseRow { released: true, ..l }
}

/// Every lease of a Task given back.
pub open spec fn release_lease(m: Model, task: TaskId) -> Model {
    Model { leases: update_where(m.leases, is_lease_of(task), |l: LeaseRow| released(l)), ..m }
}

impl Ledger {
    /// Adds a Hold, unless the worktree is held already; says whether it was added.
    pub fn add_hold(&mut self, worktree: WorktreeKey, task: TaskId, reason: HoldReason) -> (r: bool)
        ensures
            final(self)@ == add_hold(old(self)@, worktree, task, reason),
            r == !held(old(self)@, worktree),
    {
        if self.is_held(worktree) {
            return false;
        }
        self.push_hold(worktree, task, reason);
        true
    }

    /// Adds a Hold to a worktree that has none.
    pub fn push_hold(&mut self, worktree: WorktreeKey, task: TaskId, reason: HoldReason)
        ensures
            final(self)@ == push_hold(old(self)@, worktree, task, reason),
    {
        let id = WorktreeHoldId(self.holds.len() as u128);
        self.holds.push(
            HoldRow { id, worktree, task, reason, cleared: false, observation: None, note: None },
        );
    }

    /// Gives back every lease of a Task.
    pub fn release_lease(&mut self, task: TaskId)
        ensures
            final(self)@ == release_lease(old(self)@, task),
    {
        let n = self.leases.len();
        let mut i: usize = 0;
        while i < n
            invariant
                i <= n,
                n == self.leases.len(),
                n == old(self).leases.len(),
                self@ == (Model { leases: self.leases@, ..old(self)@ }),
                forall|j: int|
                    0 <= j < i ==> #[trigger] self.leases@[j] == (if is_lease_of(task)(
                        old(self).leases@[j],
                    ) {
                        released(old(self).leases@[j])
                    } else {
                        old(self).leases@[j]
                    }),
                forall|j: int| i <= j < n ==> #[trigger] self.leases@[j] == old(self).leases@[j],
            decreases n - i,
        {
            let l = self.leases[i];
            if l.task == task && !l.released {
                self.leases.set(i, LeaseRow { released: true, ..l });
            }
            i += 1;
        }
        assert(self.leases@ =~= update_where(
            old(self).leases@,
            is_lease_of(task),
            |l: LeaseRow| released(l),
        ));
    }
}

// ---------------------------------------------------------------------------------------------
// Delivery attempts and read marks
// ---------------------------------------------------------------------------------------------

/// A further delivery attempt of a Message.
pub open spec fn add_attempt(
    m: Model,
    message: MessageId,
    session: Option<HarnessSessionId>,
    state: AttemptState,
) -> Model {
    Model {
        attempts: m.attempts.push(
            AttemptRow {
                message,
                session,
                state,
                wrote: false,
                correlation: None,
                doubt: None,
            },
        ),
        ..m
    }
}

pub open spec fn is_read(harness: HarnessKey, message: MessageId) -> spec_fn(ReadRow) -> bool {
    |r: ReadRow| r.harness == harness && r.message == message
}

/// A Message marked as read by a Harness.
pub open spec fn add_read(m: Model, harness: HarnessKey, message: MessageId) -> Model {
    if some_where(m.reads, is_read(harness, message)) {
        m
    } else {
        Model { reads: m.reads.push(ReadRow { harness, message }), ..m }
    }
}

impl Ledger {
    /// Adds a delivery attempt.
    pub fn add_attempt(
        &mut self,
        message: MessageId,
        session: Option<HarnessSessionId>,
        state: AttemptState,
    )
        ensures
            final(self)@ == add_attempt(old(self)@, message, session, state),
    {
        self.attempts.push(
            AttemptRow {
                message,
                session,
                state,
                wrote: false,
                correlation: None,
                doubt: None,
            },
        );
    }

    /// Marks a Message as read; says whether the mark is new.
    pub fn add_read(&mut self, harness: HarnessKey, message: MessageId) -> (r: bool)
        ensures
            final(self)@ == add_read(old(self)@, harness, message),
            r == !some_where(old(self)@.reads, is_read(harness, message)),
    {
        let mut i: usize = 0;
        while i < self.reads.len()
            invariant
                i <= self.reads.len(),
                self@ == old(self)@,
                forall|j: int|
                    0 <= j < i ==> !is_read(harness, message)(#[trigger] self.reads@[j]),
            decreases self.reads.len() - i,
        {
            if self.reads[i].harness == harness && self.reads[i].message == message {
                assert(is_read(harness, message)(self@.reads[i as int]));
                return false;
            }
            i += 1;
        }
        self.reads.push(ReadRow { harness, message });
        true
    }
}

// ---------------------------------------------------------------------------------------------
// Matching events
// ---------------------------------------------------------------------------------------------

/// An event that can be settled without reconciliation.
pub open spec fn settleable(e: EventRow) -> bool {
    e.state == SupervisorEventDeliveryState::Pending || e.state
        == SupervisorEventDeliveryState::Accepted
}

/// An event of a Task that a Supervisor answer settles.
pub open spec fn matching(
    e: EventRow,
    kind: SupervisorEventKind,
    task: TaskId,
    revision: Option<u32>,
) -> bool {
    &&& e.kind == kind
    &&& e.task == Some(task)
    &&& revision is None || e.revision == revision
    &&& settleable(e)
}

/// The source Message of an event marked as read by its recipient.
pub open spec fn read_source(m: Model, source: Option<MessageId>) -> Model {
    match source {
        None => m,
        Some(id) => match first_where(m.messages, is_message(id)) {
            None => m,
            Some(k) => add_read(m, m.messages[k].recipient, id),
        },
    }
}

pub open spec fn process_event(
    m: Model,
    kind: SupervisorEventKind,
    task: TaskId,
    revision: Option<u32>,
    i: int,
) -> Model {
    let e = m.events[i];
    if matching(e, kind, task, revision) {
        read_source(
            Model {
                events: m.events.update(
                    i,
                    EventRow { state: SupervisorEventDeliveryState::Processed, ..e },
                ),
                ..m
            },
            e.message,
        )
    } else {
        m
    }
}

pub open spec fn process_events_upto(
    m: Model,
    kind: SupervisorEventKind,
    task: TaskId,
    revision: Option<u32>,
    n: nat,
) -> Model
    decreases n,
{
    if n == 0 {
        m
    } else {
        process_event(
            process_events_upto(m, kind, task, revision, (n - 1) as nat),
            kind,
            task,
            revision,
            n - 1,
        )
    }
}

/// Every matching event settled, its source Message read.
pub open spec fn process_matching_events(
    m: Model,
    kind: SupervisorEventKind,
    task: TaskId,
    revision: Option<u32>,
) -> Model {
    process_events_upto(m, kind, task, revision, m.events.len())
}

impl Ledger {
    /// Settles every matching event.
    pub fn process_matching_events(
        &mut self,
        kind: SupervisorEventKind,
        task: TaskId,
        revision: Option<u32>,
    )
        ensures
            final(self)@ == process_matching_events(old(self)@, kind, task, revision),
    {
        let n = self.events.len();
        let mut i: usize = 0;
        while i < n
            invariant
                i <= n,
                n == self.events.len(),
                n == old(self)@.events.len(),
                self@ == process_events_upto(old(self)@, kind, task, revision, i as nat),
            decreases n - i,
        {
            let e = self.events[i];
            let ghost before = self@;
            let of_task = match e.task {
                Some(id) => id == task,
                None => false,
            };
            let of_revision = match (revision, e.revision) {
                (None, _) => true,
                (Some(a), Some(b)) => a == b,
                (Some(_), None) => false,
            };
            let open = e.state == SupervisorEventDeliveryState::Pending || e.state
                == SupervisorEventDeliveryState::Accepted;
            if e.kind == kind && of_task && of_revision && open {
                self.events.set(i, EventRow { state: SupervisorEventDeliveryState::Processed, ..e });
                if let Some(id) = e.message {
                    if let Some(k) = self.message_position(id) {
                        let recipient = self.messages[k].recipient;
                        let _ = self.add_read(recipient, id);
                    }
                }
            }
            assert(self@ == process_event(before, kind, task, revision, i as int));
            i += 1;
        }
    }
}

} // verus!

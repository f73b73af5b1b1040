//! The durable state of a Coordinator and its elementary operations.
use vstd::prelude::*;

pub mod access_laws;
pub mod accounts;
pub mod attention;
pub mod attention_laws;
pub mod binding;
pub mod cascade;
pub mod cascade_laws;
pub mod command_laws;
pub mod connections;
pub mod create;
pub mod creation_laws;
pub mod dependencies;
pub mod dispatch;
pub mod dispatch_laws;
pub mod edge_laws;
pub mod effect_laws;
pub mod event_laws;
pub mod events;
pub mod evidence;
pub mod execute;
pub mod frames;
pub mod graph_laws;
pub mod guard_laws;
pub mod guards;
pub mod hosts;
pub mod keyed_laws;
pub mod messages;
pub mod notice_laws;
pub mod notices;
pub mod outcome_laws;
pub mod present;
pub mod present_laws;
pub mod propagation;
pub mod queries;
pub mod query;
pub mod readback_laws;
pub mod reap_laws;
pub mod reconcile;
pub mod reconcile_laws;
pub mod refusal_laws;
pub mod route_laws;
pub mod schedule_laws;
pub mod session_laws;
pub mod sessions;
pub mod settlement;
pub mod show_laws;
pub mod shutdown;
pub mod steps;
pub mod submit;

use crate::contract::{DeliveryIntent, SupervisorEventDeliveryState, SupervisorEventKind, TaskState};
use crate::error::{CoordinatorError, Refusal};
use crate::identity::{HarnessSessionId, MessageId, SupervisorEventId, TaskId};
use crate::rows::{
    AttachedRow, AttachmentRow, AttemptRow, BindingRow, ConnectionRow, DependencyRow,
    EventAttemptRow, EventObservationRow, EventOrigin, EventRow, HarnessKey, HarnessRow, HoldRow,
    HostEventRow, IdempotencyRow, LeaseRow, MessageRow, ObservationRow, ReadRow, ReconciliationRow,
    ResultRow, SchedulingRow, SessionRow, SnapshotRow, TaskRow, TransitionReason, TransitionRow,
    WatchRootRow, WatchRow, Wording, WorktreeKey,
};
use crate::select::{
    first_found, first_missing, first_where, last_found, last_missing, last_where, some_where,
};

verus! {

/// The durable tables, each in creation order.
#[derive(Debug)]
pub struct Ledger {
    pub harnesses: Vec<HarnessRow>,
    pub sessions: Vec<SessionRow>,
    pub tasks: Vec<TaskRow>,
    pub dependencies: Vec<DependencyRow>,
    pub messages: Vec<MessageRow>,
    pub attempts: Vec<AttemptRow>,
    pub reads: Vec<ReadRow>,
    pub leases: Vec<LeaseRow>,
    pub holds: Vec<HoldRow>,
    pub observations: Vec<ObservationRow>,
    pub snapshots: Vec<SnapshotRow>,
    pub results: Vec<ResultRow>,
    pub events: Vec<EventRow>,
    pub event_attempts: Vec<EventAttemptRow>,
    pub event_observations: Vec<EventObservationRow>,
    pub watches: Vec<WatchRow>,
    pub watch_roots: Vec<WatchRootRow>,
    pub connections: Vec<ConnectionRow>,
    pub bindings: Vec<BindingRow>,
    pub transitions: Vec<TransitionRow>,
    pub scheduling: Vec<SchedulingRow>,
    pub keyed: Vec<IdempotencyRow>,
    pub host_events: Vec<HostEventRow>,
    pub attachments: Vec<AttachmentRow>,
    pub attached: Vec<AttachedRow>,
    pub reconciliations: Vec<ReconciliationRow>,
}

/// What a [`Ledger`] holds.
pub struct Model {
    pub harnesses: Seq<HarnessRow>,
    pub sessions: Seq<SessionRow>,
    pub tasks: Seq<TaskRow>,
    pub dependencies: Seq<DependencyRow>,
    pub messages: Seq<MessageRow>,
    pub attempts: Seq<AttemptRow>,
    pub reads: Seq<ReadRow>,
    pub leases: Seq<LeaseRow>,
    pub holds: Seq<HoldRow>,
    pub observations: Seq<ObservationRow>,
    pub snapshots: Seq<SnapshotRow>,
    pub results: Seq<ResultRow>,
    pub events: Seq<EventRow>,
    pub event_attempts: Seq<EventAttemptRow>,
    pub event_observations: Seq<EventObservationRow>,
    pub watches: Seq<WatchRow>,
    pub watch_roots: Seq<WatchRootRow>,
    pub connections: Seq<ConnectionRow>,
    pub bindings: Seq<BindingRow>,
    pub transitions: Seq<TransitionRow>,
    pub scheduling: Seq<SchedulingRow>,
    pub keyed: Seq<IdempotencyRow>,
    pub host_events: Seq<HostEventRow>,
    pub attachments: Seq<AttachmentRow>,
    pub attached: Seq<AttachedRow>,
    pub reconciliations: Seq<ReconciliationRow>,
}

impl View for Ledger {
    type V = Model;

    open spec fn view(&self) -> Model {
        Model {
            harnesses: self.harnesses@,
            sessions: self.sessions@,
            tasks: self.tasks@,
            dependencies: self.dependencies@,
            messages: self.messages@,
            attempts: self.attempts@,
            reads: self.reads@,
            leases: self.leases@,
            holds: self.holds@,
            observations: self.observations@,
            snapshots: self.snapshots@,
            results: self.results@,
            events: self.events@,
            event_attempts: self.event_attempts@,
            event_observations: self.event_observations@,
            watches: self.watches@,
            watch_roots: self.watch_roots@,
            connections: self.connections@,
            bindings: self.bindings@,
            transitions: self.transitions@,
            scheduling: self.scheduling@,
            keyed: self.keyed@,
            host_events: self.host_events@,
            attachments: self.attachments@,
            attached: self.attached@,
            reconciliations: self.reconciliations@,
        }
    }
}

/// What a command does: on success the next state and its outcome, otherwise a refusal that
/// leaves every table as it was.
pub open spec fn settles<T>(
    r: Result<T, CoordinatorError>,
    before: Model,
    after: Model,
    said: Result<(Model, T), Refusal>,
) -> bool {
    match said {
        Ok((next, value)) => r == Ok::<T, CoordinatorError>(value) && after == next,
        Err(refused) => r is Err && r->Err_0@ == refused && after == before,
    }
}

// ---------------------------------------------------------------------------------------------
// Task states
// ---------------------------------------------------------------------------------------------

/// A Task that occupies its Worker.
pub open spec fn active_state(state: TaskState) -> bool {
    match state {
        TaskState::Dispatching | TaskState::Working | TaskState::Waiting | TaskState::Reviewing
        | TaskState::Cancelling | TaskState::DeliveryUnknown => true,
        _ => false,
    }
}

/// A Task that will never change its state again.
pub open spec fn terminal_state(state: TaskState) -> bool {
    match state {
        TaskState::Approved | TaskState::Cancelled | TaskState::Failed => true,
        _ => false,
    }
}

/// A Task that reached review or a terminal state.
pub open spec fn settled_state(state: TaskState) -> bool {
    state == TaskState::Reviewing || terminal_state(state)
}

pub fn is_active_state(state: TaskState) -> (r: bool)
    ensures
        r == active_state(state),
{
    match state {
        TaskState::Dispatching | TaskState::Working | TaskState::Waiting | TaskState::Reviewing
        | TaskState::Cancelling | TaskState::DeliveryUnknown => true,
        _ => false,
    }
}

pub fn is_settled_state(state: TaskState) -> (r: bool)
    ensures
        r == settled_state(state),
{
    match state {
        TaskState::Reviewing | TaskState::Approved | TaskState::Cancelled | TaskState::Failed => {
            true
        },
        _ => false,
    }
}

// ---------------------------------------------------------------------------------------------
// Selections
// ---------------------------------------------------------------------------------------------

pub open spec fn is_task(id: TaskId) -> spec_fn(TaskRow) -> bool {
    |t: TaskRow| t.id == id
}

pub open spec fn is_message(id: MessageId) -> spec_fn(MessageRow) -> bool {
    |m: MessageRow| m.id == id
}

pub open spec fn is_session(id: HarnessSessionId) -> spec_fn(SessionRow) -> bool {
    |s: SessionRow| s.id == id
}

pub open spec fn is_live_session(id: HarnessSessionId) -> spec_fn(SessionRow) -> bool {
    |s: SessionRow| s.id == id && !s.ended
}

pub open spec fn is_live_session_of(harness: HarnessKey) -> spec_fn(SessionRow) -> bool {
    |s: SessionRow| s.harness == harness && !s.ended
}

pub open spec fn is_harness(key: HarnessKey) -> spec_fn(HarnessRow) -> bool {
    |h: HarnessRow| h.key == key
}

pub open spec fn is_attempt_of(message: MessageId) -> spec_fn(AttemptRow) -> bool {
    |a: AttemptRow| a.message == message
}

pub open spec fn is_active_hold_on(worktree: WorktreeKey) -> spec_fn(HoldRow) -> bool {
    |h: HoldRow| h.worktree == worktree && !h.cleared
}

pub open spec fn is_active_lease_on(worktree: WorktreeKey) -> spec_fn(LeaseRow) -> bool {
    |l: LeaseRow| l.worktree == worktree && !l.released
}

pub open spec fn is_event_from(origin: EventOrigin) -> spec_fn(EventRow) -> bool {
    |e: EventRow| e.origin == origin
}

pub open spec fn is_event(id: SupervisorEventId) -> spec_fn(EventRow) -> bool {
    |e: EventRow| e.id == id
}

/// Another Task of a Worker that occupies it.
pub open spec fn occupies(worker: HarnessKey, except: Option<TaskId>) -> spec_fn(TaskRow) -> bool {
    |t: TaskRow| t.worker == worker && except != Some(t.id) && active_state(t.state)
}

/// The Task with an identity.
pub open spec fn find_task(m: Model, id: TaskId) -> Option<TaskRow> {
    match first_where(m.tasks, is_task(id)) {
        Some(i) => Some(m.tasks[i]),
        None => None,
    }
}

/// Whether a Hold blocks a worktree.
pub open spec fn held(m: Model, worktree: WorktreeKey) -> bool {
    some_where(m.holds, is_active_hold_on(worktree))
}

/// The Task that leases a worktree.
pub open spec fn lease_owner(m: Model, worktree: WorktreeKey) -> Option<TaskId> {
    match first_where(m.leases, is_active_lease_on(worktree)) {
        Some(i) => Some(m.leases[i].task),
        None => None,
    }
}

/// The newest live Session of a Harness.
pub open spec fn latest_session(m: Model, harness: HarnessKey) -> Option<HarnessSessionId> {
    match last_where(m.sessions, is_live_session_of(harness)) {
        Some(i) => Some(m.sessions[i].id),
        None => None,
    }
}

impl Ledger {
    /// Position of a Task.
    pub fn task_position(&self, id: TaskId) -> (r: Option<usize>)
        ensures
            match r {
                Some(i) => first_where(self@.tasks, is_task(id)) == Some(i as int) && i
                    < self.tasks.len() && self.tasks@[i as int].id == id,
                None => first_where(self@.tasks, is_task(id)) is None,
            },
    {
        let mut i: usize = 0;
        while i < self.tasks.len()
            invariant
                i <= self.tasks.len(),
                forall|j: int| 0 <= j < i ==> !is_task(id)(#[trigger] self.tasks@[j]),
            decreases self.tasks.len() - i,
        {
            if self.tasks[i].id == id {
                proof {
                    first_found(self@.tasks, is_task(id), i as int);
                }
                return Some(i);
            }
            i += 1;
        }
        proof {
            first_missing(self@.tasks, is_task(id));
        }
        None
    }

    /// The Task with an identity.
    pub fn task(&self, id: TaskId) -> (r: Option<TaskRow>)
        ensures
            r == find_task(self@, id),
    {
        match self.task_position(id) {
            Some(i) => Some(self.tasks[i]),
            None => None,
        }
    }

    /// Position of a Message.
    pub fn message_position(&self, id: MessageId) -> (r: Option<usize>)
        ensures
            match r {
                Some(i) => first_where(self@.messages, is_message(id)) == Some(i as int) && i
                    < self.messages.len() && self.messages@[i as int].id == id,
                None => first_where(self@.messages, is_message(id)) is None,
            },
    {
        let mut i: usize = 0;
        while i < self.messages.len()
            invariant
                i <= self.messages.len(),
                forall|j: int| 0 <= j < i ==> !is_message(id)(#[trigger] self.messages@[j]),
            decreases self.messages.len() - i,
        {
            if self.messages[i].id == id {
                proof {
                    first_found(self@.messages, is_message(id), i as int);
                }
                return Some(i);
            }
            i += 1;
        }
        proof {
            first_missing(self@.messages, is_message(id));
        }
        None
    }

    /// Position of a live Session.
    pub fn live_session_position(&self, id: HarnessSessionId) -> (r: Option<usize>)
        ensures
            match r {
                Some(i) => first_where(self@.sessions, is_live_session(id)) == Some(i as int) && i
                    < self.sessions.len() && self.sessions@[i as int].id == id
                    && !self.sessions@[i as int].ended,
                None => first_where(self@.sessions, is_live_session(id)) is None,
            },
    {
        let mut i: usize = 0;
        while i < self.sessions.len()
            invariant
                i <= self.sessions.len(),
                forall|j: int| 0 <= j < i ==> !is_live_session(id)(#[trigger] self.sessions@[j]),
            decreases self.sessions.len() - i,
        {
            if self.sessions[i].id == id && !self.sessions[i].ended {
                proof {
                    first_found(self@.sessions, is_live_session(id), i as int);
                }
                return Some(i);
            }
            i += 1;
        }
        proof {
            first_missing(self@.sessions, is_live_session(id));
        }
        None
    }

    /// The newest live Session of a Harness.
    pub fn latest_session(&self, harness: HarnessKey) -> (r: Option<HarnessSessionId>)
        ensures
            r == latest_session(self@, harness),
    {
        let mut i: usize = self.sessions.len();
        while i > 0
            invariant
                i <= self.sessions.len(),
                forall|j: int|
                    i <= j < self.sessions.len() ==> !is_live_session_of(harness)(
                        #[trigger] self.sessions@[j],
                    ),
            decreases i,
        {
            i -= 1;
            if self.sessions[i].harness == harness && !self.sessions[i].ended {
                proof {
                    last_found(self@.sessions, is_live_session_of(harness), i as int);
                }
                return Some(self.sessions[i].id);
            }
        }
        proof {
            last_missing(self@.sessions, is_live_session_of(harness));
        }
        None
    }

    /// The registered Harness with a number.
    pub fn harness(&self, key: HarnessKey) -> (r: Option<HarnessRow>)
        ensures
            r == (match first_where(self@.harnesses, is_harness(key)) {
                Some(i) => Some(self@.harnesses[i]),
                None => None,
            }),
    {
        let mut i: usize = 0;
        while i < self.harnesses.len()
            invariant
                i <= self.harnesses.len(),
                forall|j: int| 0 <= j < i ==> !is_harness(key)(#[trigger] self.harnesses@[j]),
            decreases self.harnesses.len() - i,
        {
            if self.harnesses[i].key == key {
                proof {
                    first_found(self@.harnesses, is_harness(key), i as int);
                }
                return Some(self.harnesses[i]);
            }
            i += 1;
        }
        proof {
            first_missing(self@.harnesses, is_harness(key));
        }
        None
    }

    /// Position of the latest delivery attempt of a Message.
    pub fn latest_attempt(&self, message: MessageId) -> (r: Option<usize>)
        ensures
            match r {
                Some(i) => last_where(self@.attempts, is_attempt_of(message)) == Some(i as int) && i
                    < self.attempts.len(),
                None => last_where(self@.attempts, is_attempt_of(message)) is None,
            },
    {
        let mut i: usize = self.attempts.len();
        while i > 0
            invariant
                i <= self.attempts.len(),
                forall|j: int|
                    i <= j < self.attempts.len() ==> !is_attempt_of(message)(
                        #[trigger] self.attempts@[j],
                    ),
            decreases i,
        {
            i -= 1;
            if self.attempts[i].message == message {
                proof {
                    last_found(self@.attempts, is_attempt_of(message), i as int);
                }
                return Some(i);
            }
        }
        proof {
            last_missing(self@.attempts, is_attempt_of(message));
        }
        None
    }

    /// Whether a Hold blocks a worktree.
    pub fn is_held(&self, worktree: WorktreeKey) -> (r: bool)
        ensures
            r == held(self@, worktree),
    {
        let mut i: usize = 0;
        while i < self.holds.len()
            invariant
                i <= self.holds.len(),
                forall|j: int|
                    0 <= j < i ==> !is_active_hold_on(worktree)(#[trigger] self.holds@[j]),
            decreases self.holds.len() - i,
        {
            if self.holds[i].worktree == worktree && !self.holds[i].cleared {
                assert(is_active_hold_on(worktree)(self@.holds[i as int]));
                return true;
            }
            i += 1;
        }
        false
    }

    /// The Task that leases a worktree.
    pub fn lease_owner(&self, worktree: WorktreeKey) -> (r: Option<TaskId>)
        ensures
            r == lease_owner(self@, worktree),
    {
        let mut i: usize = 0;
        while i < self.leases.len()
            invariant
                i <= self.leases.len(),
                forall|j: int|
                    0 <= j < i ==> !is_active_lease_on(worktree)(#[trigger] self.leases@[j]),
            decreases self.leases.len() - i,
        {
            if self.leases[i].worktree == worktree && !self.leases[i].released {
                proof {
                    first_found(self@.leases, is_active_lease_on(worktree), i as int);
                }
                return Some(self.leases[i].task);
            }
            i += 1;
        }
        proof {
            first_missing(self@.leases, is_active_lease_on(worktree));
        }
        None
    }

    /// Whether another Task occupies a Worker.
    pub fn is_occupied(&self, worker: HarnessKey, except: Option<TaskId>) -> (r: bool)
        ensures
            r == some_where(self@.tasks, occupies(worker, except)),
    {
        let mut i: usize = 0;
        while i < self.tasks.len()
            invariant
                i <= self.tasks.len(),
                forall|j: int| 0 <= j < i ==> !occupies(worker, except)(#[trigger] self.tasks@[j]),
            decreases self.tasks.len() - i,
        {
            let t = self.tasks[i];
            let excepted = match except {
                Some(id) => id == t.id,
                None => false,
            };
            if t.worker == worker && !excepted && is_active_state(t.state) {
                assert(occupies(worker, except)(self@.tasks[i as int]));
                return true;
            }
            i += 1;
        }
        false
    }
}

// ---------------------------------------------------------------------------------------------
// Supervisor events
// ---------------------------------------------------------------------------------------------

/// A new event, unless one of the same origin exists; `summary` is what it says where the words do
/// not go with its origin.
pub open spec fn insert_event(
    m: Model,
    kind: SupervisorEventKind,
    task: Option<TaskId>,
    revision: Option<u32>,
    message: Option<MessageId>,
    origin: EventOrigin,
    intent: DeliveryIntent,
    summary: Option<Wording>,
) -> Model {
    if some_where(m.events, is_event_from(origin)) {
        m
    } else {
        Model {
            events: m.events.push(
                EventRow {
                    id: SupervisorEventId(m.events.len() as u128),
                    kind,
                    task,
                    revision,
                    message,
                    origin,
                    intent,
                    state: SupervisorEventDeliveryState::Pending,
                    summary,
                },
            ),
            ..m
        }
    }
}

impl Ledger {
    /// Adds an event, unless one of the same origin exists.
    pub fn insert_event(
        &mut self,
        kind: SupervisorEventKind,
        task: Option<TaskId>,
        revision: Option<u32>,
        message: Option<MessageId>,
        origin: EventOrigin,
        intent: DeliveryIntent,
        summary: Option<Wording>,
    )
        ensures
            final(self)@ == insert_event(
                old(self)@,
                kind,
                task,
                revision,
                message,
                origin,
                intent,
                summary,
            ),
    {
        let mut i: usize = 0;
        while i < self.events.len()
            invariant
                i <= self.events.len(),
                self@ == old(self)@,
                forall|j: int| 0 <= j < i ==> !is_event_from(origin)(#[trigger] self.events@[j]),
            decreases self.events.len() - i,
        {
            if self.events[i].origin == origin {
                assert(is_event_from(origin)(self@.events[i as int]));
                return ;
            }
            i += 1;
        }
        let id = SupervisorEventId(self.events.len() as u128);
        self.events.push(
            EventRow {
                id,
                kind,
                task,
                revision,
                message,
                origin,
                intent,
                state: SupervisorEventDeliveryState::Pending,
                summary,
            },
        );
    }
}

// ---------------------------------------------------------------------------------------------
// Watches and transitions
// ---------------------------------------------------------------------------------------------

/// Root `r` keeps a watch open: its Task exists and is not settled.
pub open spec fn keeps_open(m: Model, watch: WatchRow, r: int, t: int) -> bool {
    &&& 0 <= r < m.watch_roots.len()
    &&& 0 <= t < m.tasks.len()
    &&& m.watch_roots[r].watch == watch.id
    &&& m.tasks[t].id == m.watch_roots[r].task
    &&& !settled_state(m.tasks[t].state)
}

/// An open watch all of whose roots reached review or a terminal state.
pub open spec fn watch_due(m: Model, watch: WatchRow) -> bool {
    &&& !watch.completed
    &&& forall|r: int, t: int| !keeps_open(m, watch, r, t)
}

/// One watch: completed with its event when it is due.
pub open spec fn complete_watch(m: Model, i: int) -> Model {
    if watch_due(m, m.watches[i]) {
        insert_event(
            Model { watches: m.watches.update(i, WatchRow { completed: true, ..m.watches[i] }), ..m
            },
            SupervisorEventKind::TaskGraphCompleted,
            None,
            None,
            None,
            EventOrigin::GraphCompleted { watch: m.watches[i].id },
            DeliveryIntent::FollowUp,
            None,
        )
    } else {
        m
    }
}

/// The first `n` watches, in order.
pub open spec fn complete_watches_upto(m: Model, n: nat) -> Model
    decreases n,
{
    if n == 0 {
        m
    } else {
        complete_watch(complete_watches_upto(m, (n - 1) as nat), n - 1)
    }
}

/// Every due watch completed.
pub open spec fn complete_watches(m: Model) -> Model {
    complete_watches_upto(m, m.watches.len())
}

/// A logged transition: a failure asks for attention, and watches may become due.
pub open spec fn record_transition(
    m: Model,
    task: TaskId,
    from: TaskState,
    to: TaskState,
    reason: TransitionReason,
) -> Model {
    let logged = Model {
        transitions: m.transitions.push(TransitionRow { task, from: Some(from), to, reason }),
        ..m
    };
    let noticed = if to == TaskState::Failed {
        insert_event(
            logged,
            SupervisorEventKind::TaskFailed,
            Some(task),
            None,
            None,
            EventOrigin::TaskFailed { task },
            DeliveryIntent::FollowUp,
            None,
        )
    } else {
        logged
    };
    complete_watches(noticed)
}

proof fn complete_watches_keeps_len(m: Model, n: nat)
    requires
        n <= m.watches.len(),
    ensures
        complete_watches_upto(m, n).watches.len() == m.watches.len(),
        complete_watches_upto(m, n).tasks == m.tasks,
        complete_watches_upto(m, n).watch_roots == m.watch_roots,
    decreases n,
{
    if n > 0 {
        complete_watches_keeps_len(m, (n - 1) as nat);
    }
}

/// Completing watches touches watches and events only.
pub proof fn complete_watches_frame(m: Model, n: nat)
    ensures
        ({
            let done = complete_watches_upto(m, n);
            done == (Model { watches: done.watches, events: done.events, ..m })
        }),
    decreases n,
{
    if n > 0 {
        complete_watches_frame(m, (n - 1) as nat);
    }
}

/// Logging a transition touches the log, watches and events only.
pub proof fn record_transition_frame(
    m: Model,
    task: TaskId,
    from: TaskState,
    to: TaskState,
    reason: TransitionReason,
)
    ensures
        ({
            let next = record_transition(m, task, from, to, reason);
            next == (Model {
                transitions: m.transitions.push(TransitionRow { task, from: Some(from), to, reason }),
                watches: next.watches,
                events: next.events,
                ..m
            })
        }),
{
    let logged = Model {
        transitions: m.transitions.push(TransitionRow { task, from: Some(from), to, reason }),
        ..m
    };
    let noticed = if to == TaskState::Failed {
        insert_event(
            logged,
            SupervisorEventKind::TaskFailed,
            Some(task),
            None,
            None,
            EventOrigin::TaskFailed { task },
            DeliveryIntent::FollowUp,
            None,
        )
    } else {
        logged
    };
    complete_watches_frame(noticed, noticed.watches.len());
}

impl Ledger {
    fn is_watch_due(&self, i: usize) -> (r: bool)
        requires
            i < self.watches.len(),
        ensures
            r == watch_due(self@, self@.watches[i as int]),
    {
        let watch = self.watches[i];
        if watch.completed {
            return false;
        }
        let mut k: usize = 0;
        while k < self.watch_roots.len()
            invariant
                k <= self.watch_roots.len(),
                i < self.watches.len(),
                watch == self@.watches[i as int],
                forall|r: int, t: int| r < k ==> !keeps_open(self@, watch, r, t),
            decreases self.watch_roots.len() - k,
        {
            if self.watch_roots[k].watch == watch.id {
                let mut t: usize = 0;
                while t < self.tasks.len()
                    invariant
                        t <= self.tasks.len(),
                        i < self.watches.len(),
                        watch == self@.watches[i as int],
                        k < self.watch_roots.len(),
                        self.watch_roots@[k as int].watch == watch.id,
                        forall|u: int| u < t ==> !keeps_open(self@, watch, k as int, u),
                    decreases self.tasks.len() - t,
                {
                    if self.tasks[t].id == self.watch_roots[k].task && !is_settled_state(
                        self.tasks[t].state,
                    ) {
                        assert(keeps_open(self@, watch, k as int, t as int));
                        return false;
                    }
                    t += 1;
                }
            }
            k += 1;
        }
        true
    }

    /// Completes every due watch.
    pub fn complete_watches(&mut self)
        ensures
            final(self)@ == complete_watches(old(self)@),
    {
        let n = self.watches.len();
        let mut i: usize = 0;
        while i < n
            invariant
                i <= n,
                n == old(self)@.watches.len(),
                self.watches.len() == n,
                self@ == complete_watches_upto(old(self)@, i as nat),
            decreases n - i,
        {
            proof {
                complete_watches_keeps_len(old(self)@, i as nat);
            }
            let ghost before = self@;
            if self.is_watch_due(i) {
                let watch = self.watches[i];
                self.watches.set(i, WatchRow { completed: true, ..watch });
                self.insert_event(
                    SupervisorEventKind::TaskGraphCompleted,
                    None,
                    None,
                    None,
                    EventOrigin::GraphCompleted { watch: watch.id },
                    DeliveryIntent::FollowUp,
                    None,
                );
            }
            assert(self@ == complete_watch(before, i as int));
            i += 1;
        }
    }

    /// Logs a transition with its notices.
    pub fn record_transition(
        &mut self,
        task: TaskId,
        from: TaskState,
        to: TaskState,
        reason: TransitionReason,
    )
        ensures
            final(self)@ == record_transition(old(self)@, task, from, to, reason),
    {
        self.transitions.push(TransitionRow { task, from: Some(from), to, reason });
        if to == TaskState::Failed {
            self.insert_event(
                SupervisorEventKind::TaskFailed,
                Some(task),
                None,
                None,
                EventOrigin::TaskFailed { task },
                DeliveryIntent::FollowUp,
                None,
            );
        }
        self.complete_watches();
    }
}

} // verus!

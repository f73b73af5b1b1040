//! What can be asked of the ledger, and the read marks of inboxes.
use vstd::prelude::*;

use crate::contract::{Activity, HarnessTier, Presence, TaskSchedulingState, TaskState};
use crate::error::{outcome, refusal, refuse, CoordinatorError, ErrorCategory, Refusal};
use crate::identity::{AttachmentId, MessageId, TaskId};
use crate::ledger::binding::is_current_binding;
use crate::ledger::create::attachments_of;
use crate::ledger::dispatch::in_line;
use crate::ledger::evidence::no_such_task;
use crate::ledger::steps::{add_read, is_read, revision_overflow};
use crate::ledger::{
    find_task, held, is_attempt_of, is_harness, is_live_session, is_live_session_of, is_message,
    occupies, Ledger, Model,
};
use crate::rows::{
    AttachmentOwner, AttemptState, AuthenticatedActor, BindingRow, DependencyRow, EventOrigin,
    EventRow, HarnessKey, HarnessRow, HoldRow, LeaseRow, MessageRow, SessionRow, StoredMessageKind,
    TaskRow, TextKey, WorktreeKey,
};
use crate::select::{
    count_step, count_where, first_found, first_missing, first_where, keep_step, keep_where,
    last_found, last_missing, last_where, some_where,
};
use crate::views::ResolvedTaskInputView;

verus! {

// ---------------------------------------------------------------------------------------------
// Inboxes
// ---------------------------------------------------------------------------------------------

/// A Message addressed to a Harness.
pub open spec fn addressed(m: Model, harness: HarnessKey, id: MessageId) -> bool {
    match first_where(m.messages, is_message(id)) {
        Some(i) => m.messages[i].recipient == harness,
        None => false,
    }
}

/// The first `n` Messages marked as read, and how many marks are new.
pub open spec fn mark_read_upto(
    m: Model,
    harness: HarnessKey,
    ids: Seq<MessageId>,
    n: nat,
) -> (Model, nat)
    decreases n,
{
    if n == 0 {
        (m, 0)
    } else {
        let (before, count) = mark_read_upto(m, harness, ids, (n - 1) as nat);
        let id = ids[n - 1];
        if addressed(before, harness, id) && !some_where(before.reads, is_read(harness, id)) {
            (add_read(before, harness, id), count + 1)
        } else {
            (before, count)
        }
    }
}

/// Up to 256 Messages marked as read; those addressed to others are passed over.
pub open spec fn mark_inbox_read(m: Model, actor: AuthenticatedActor, ids: Seq<MessageId>) -> Result<
    (Model, nat),
    Refusal,
> {
    if ids.len() > 256 {
        Err(
            refusal(
                ErrorCategory::InvalidInput,
                "at most 256 inbox Messages may be marked at once"@,
            ),
        )
    } else {
        Ok(mark_read_upto(m, actor.id, ids, ids.len()))
    }
}

/// An unread Message of a Harness; a root Message shows once its delivery began.
pub open spec fn is_unread(m: Model, harness: HarnessKey) -> spec_fn(MessageRow) -> bool {
    |x: MessageRow|
        x.recipient == harness && !some_where(m.reads, is_read(harness, x.id)) && (x.kind
            != StoredMessageKind::Task || some_where(m.attempts, is_attempt_of(x.id)))
}

/// An unread Message with the state of its latest delivery attempt.
#[derive(Debug, Clone, Copy, PartialEq, Eq, Structural)]
pub struct InboxRow {
    pub message: MessageRow,
    pub delivery: Option<AttemptState>,
}

pub open spec fn inbox_row(m: Model, x: MessageRow) -> InboxRow {
    InboxRow {
        message: x,
        delivery: match last_where(m.attempts, is_attempt_of(x.id)) {
            Some(i) => Some(m.attempts[i].state),
            None => None,
        },
    }
}

/// The unread Messages of a Harness, in the order in which they were sent.
pub open spec fn inbox(m: Model, harness: HarnessKey) -> Seq<InboxRow> {
    keep_where(m.messages, is_unread(m, harness)).map_values(|x: MessageRow| inbox_row(m, x))
}

impl Ledger {
    fn is_read(&self, harness: HarnessKey, message: MessageId) -> (r: bool)
        ensures
            r == some_where(self@.reads, is_read(harness, message)),
    {
        let mut i: usize = 0;
        while i < self.reads.len()
            invariant
                i <= self.reads.len(),
                forall|j: int|
                    0 <= j < i ==> !is_read(harness, message)(#[trigger] self.reads@[j]),
            decreases self.reads.len() - i,
        {
            if self.reads[i].harness == harness && self.reads[i].message == message {
                assert(is_read(harness, message)(self@.reads[i as int]));
                return true;
            }
            i += 1;
        }
        false
    }

    /// Marks up to 256 Messages as read; gives the number of new marks.
    pub fn mark_inbox_read(&mut self, actor: AuthenticatedActor, ids: &Vec<MessageId>) -> (r: Result<
        u32,
        CoordinatorError,
    >)
        ensures
            match mark_inbox_read(old(self)@, actor, ids@) {
                Ok((next, count)) => r is Ok && r->Ok_0 == count && final(self)@ == next,
                Err(e) => r is Err && r->Err_0@ == e && final(self)@ == old(self)@,
            },
    {
        if ids.len() > 256 {
            return Err(
                refuse(
                    ErrorCategory::InvalidInput,
                    "at most 256 inbox Messages may be marked at once",
                ),
            );
        }
        let mut count: u32 = 0;
        let mut i: usize = 0;
        while i < ids.len()
            invariant
                i <= ids.len() <= 256,
                count <= i,
                (self@, count as nat) == mark_read_upto(old(self)@, actor.id, ids@, i as nat),
            decreases ids.len() - i,
        {
            let id = ids[i];
            let mine = match self.message_position(id) {
                Some(k) => self.messages[k].recipient == actor.id,
                None => false,
            };
            if mine && self.add_read(actor.id, id) {
                count += 1;
            }
            i += 1;
        }
        Ok(count)
    }

    /// The unread Messages of a Harness.
    pub fn inbox(&self, harness: HarnessKey) -> (r: Vec<InboxRow>)
        ensures
            r@ == inbox(self@, harness),
    {
        let mut r: Vec<InboxRow> = Vec::new();
        let mut i: usize = 0;
        assert(r@ =~= keep_where(
            self@.messages.take(0),
            is_unread(self@, harness),
        ).map_values(|x: MessageRow| inbox_row(self@, x)));
        while i < self.messages.len()
            invariant
                i <= self.messages.len(),
                r@ == keep_where(
                    self@.messages.take(i as int),
                    is_unread(self@, harness),
                ).map_values(|x: MessageRow| inbox_row(self@, x)),
            decreases self.messages.len() - i,
        {
            proof {
                keep_step(self@.messages, is_unread(self@, harness), i as int);
            }
            let ghost kept = keep_where(
                self@.messages.take(i as int),
                is_unread(self@, harness),
            );
            let x = self.messages[i];
            let last = self.latest_attempt(x.id);
            proof {
                crate::select::last_says(self@.attempts, is_attempt_of(x.id));
            }
            if x.recipient == harness && !self.is_read(harness, x.id) && (x.kind
                != StoredMessageKind::Task || last.is_some()) {
                let delivery = match last {
                    Some(k) => Some(self.attempts[k].state),
                    None => None,
                };
                r.push(InboxRow { message: x, delivery });
                assert(r@ =~= kept.push(x).map_values(|x: MessageRow| inbox_row(self@, x)));
            }
            i += 1;
        }
        assert(self@.messages.take(i as int) =~= self@.messages);
        r
    }
}

// ---------------------------------------------------------------------------------------------
// Harnesses
// ---------------------------------------------------------------------------------------------

/// One Harness as the popup shows it.
#[derive(Debug, Clone, Copy, PartialEq, Eq, Structural)]
pub struct HarnessStatusRow {
    pub key: HarnessKey,
    pub tier: HarnessTier,
    pub presence: Presence,
    pub activity: Activity,
    pub unread: u32,
    pub active_task: Option<TaskId>,
}

/// A Message that a Harness has not read.
pub open spec fn is_waiting_for(m: Model, harness: HarnessKey) -> spec_fn(MessageRow) -> bool {
    |x: MessageRow| x.recipient == harness && !some_where(m.reads, is_read(harness, x.id))
}

pub open spec fn unread_count(m: Model, harness: HarnessKey) -> nat {
    count_where(m.messages, is_waiting_for(m, harness))
}

/// The projection of one Harness: without a live Session it is offline and idle.
pub open spec fn harness_status(m: Model, h: HarnessRow) -> HarnessStatusRow {
    let live = last_where(m.sessions, is_live_session_of(h.key));
    HarnessStatusRow {
        key: h.key,
        tier: h.tier,
        presence: match live {
            Some(i) => m.sessions[i].presence,
            None => Presence::Offline,
        },
        activity: match live {
            Some(i) => m.sessions[i].activity,
            None => Activity::Idle,
        },
        unread: unread_count(m, h.key) as u32,
        active_task: match first_where(m.tasks, occupies(h.key, None)) {
            Some(i) => Some(m.tasks[i].id),
            None => None,
        },
    }
}

/// A Harness with more unread Messages than can be shown.
pub open spec fn is_overwhelmed(m: Model) -> spec_fn(HarnessRow) -> bool {
    |h: HarnessRow| unread_count(m, h.key) > u32::MAX
}

impl Ledger {
    fn unread_count(&self, harness: HarnessKey) -> (r: usize)
        ensures
            r == unread_count(self@, harness),
    {
        let mut n: usize = 0;
        let mut i: usize = 0;
        while i < self.messages.len()
            invariant
                i <= self.messages.len(),
                n <= i,
                n == count_where(self@.messages.take(i as int), is_waiting_for(self@, harness)),
            decreases self.messages.len() - i,
        {
            proof {
                count_step(self@.messages, is_waiting_for(self@, harness), i as int);
            }
            let x = self.messages[i];
            if x.recipient == harness && !self.is_read(harness, x.id) {
                n += 1;
            }
            i += 1;
        }
        assert(self@.messages.take(i as int) =~= self@.messages);
        n
    }

    /// One row for each registered Harness, in the order of registration.
    pub fn harness_status(&self) -> (r: Result<Vec<HarnessStatusRow>, CoordinatorError>)
        ensures
            if some_where(self@.harnesses, is_overwhelmed(self@)) {
                r is Err && r->Err_0@ == revision_overflow()
            } else {
                r is Ok && r->Ok_0@ == self@.harnesses.map_values(
                    |h: HarnessRow| harness_status(self@, h),
                )
            },
    {
        let mut r: Vec<HarnessStatusRow> = Vec::new();
        let mut i: usize = 0;
        while i < self.harnesses.len()
            invariant
                i <= self.harnesses.len(),
                r@.len() == i,
                forall|j: int| 0 <= j < i ==> !is_overwhelmed(self@)(#[trigger] self.harnesses@[j]),
                forall|j: int|
                    0 <= j < i ==> #[trigger] r@[j] == harness_status(self@, self.harnesses@[j]),
            decreases self.harnesses.len() - i,
        {
            let h = self.harnesses[i];
            let n = self.unread_count(h.key);
            if n > 0xffff_ffff {
                assert(is_overwhelmed(self@)(self@.harnesses[i as int]));
                return Err(
                    refuse(
                        ErrorCategory::StorageFailure,
                        "out of range integral type conversion attempted",
                    ),
                );
            }
            let (presence, activity) = match self.live_position_of(h.key) {
                Some(k) => (self.sessions[k].presence, self.sessions[k].activity),
                None => (Presence::Offline, Activity::Idle),
            };
            let active_task = match self.active_task(h.key) {
                Some(t) => Some(t.id),
                None => None,
            };
            r.push(
                HarnessStatusRow {
                    key: h.key,
                    tier: h.tier,
                    presence,
                    activity,
                    unread: n as u32,
                    active_task,
                },
            );
            i += 1;
        }
        assert(r@ =~= self@.harnesses.map_values(|h: HarnessRow| harness_status(self@, h)));
        Ok(r)
    }

    fn live_position_of(&self, harness: HarnessKey) -> (r: Option<usize>)
        ensures
            match r {
                Some(i) => last_where(self@.sessions, is_live_session_of(harness)) == Some(
                    i as int,
                ) && i < self.sessions.len(),
                None => last_where(self@.sessions, is_live_session_of(harness)) is None,
            },
    {
        let mut i: usize = self.sessions.len();
        while i > 0
            invariant
                i <= self.sessions.len(),
                forall|j: int|
                    i <= j < self.sessions.len() ==> !is_live_session_of(harness)(
                        #[trigger] self.sessions@[j],
                    ),
            decreases i,
        {
            i -= 1;
            if self.sessions[i].harness == harness && !self.sessions[i].ended {
                proof {
                    last_found(self@.sessions, is_live_session_of(harness), i as int);
                }
                return Some(i);
            }
        }
        proof {
            last_missing(self@.sessions, is_live_session_of(harness));
        }
        None
    }
}

// ---------------------------------------------------------------------------------------------
// Tasks
// ---------------------------------------------------------------------------------------------

/// The binding in force of a Task.
pub open spec fn current_binding(m: Model, id: TaskId) -> Option<BindingRow> {
    match first_where(m.bindings, is_current_binding(id)) {
        Some(i) => Some(m.bindings[i]),
        None => None,
    }
}

/// A Task with its binding in force.
#[derive(Debug, Clone, Copy, PartialEq, Eq, Structural)]
pub struct TaskStatusRow {
    pub task: TaskRow,
    pub binding: Option<BindingRow>,
}

pub open spec fn task_status(m: Model, t: TaskRow) -> TaskStatusRow {
    TaskStatusRow { task: t, binding: current_binding(m, t.id) }
}

impl Ledger {
    /// The binding in force of a Task.
    pub fn current_binding(&self, id: TaskId) -> (r: Option<BindingRow>)
        ensures
            r == current_binding(self@, id),
    {
        let mut i: usize = 0;
        while i < self.bindings.len()
            invariant
                i <= self.bindings.len(),
                forall|j: int| 0 <= j < i ==> !is_current_binding(id)(#[trigger] self.bindings@[j]),
            decreases self.bindings.len() - i,
        {
            let b = self.bindings[i];
            if b.task == id && !b.superseded {
                proof {
                    first_found(self@.bindings, is_current_binding(id), i as int);
                }
                return Some(b);
            }
            i += 1;
        }
        proof {
            first_missing(self@.bindings, is_current_binding(id));
        }
        None
    }

    /// One Task.
    pub fn get_task(&self, id: TaskId) -> (r: Result<TaskStatusRow, CoordinatorError>)
        ensures
            outcome(r) == (match find_task(self@, id) {
                Some(t) => Ok(task_status(self@, t)),
                None => Err(no_such_task()),
            }),
    {
        match self.task(id) {
            None => Err(refuse(ErrorCategory::NotFound, "Task does not exist")),
            Some(t) => Ok(TaskStatusRow { task: t, binding: self.current_binding(t.id) }),
        }
    }

    /// All Tasks in the order of creation.
    pub fn list_tasks(&self) -> (r: Vec<TaskStatusRow>)
        ensures
            r@ == self@.tasks.map_values(|t: TaskRow| task_status(self@, t)),
    {
        let mut r: Vec<TaskStatusRow> = Vec::new();
        let mut i: usize = 0;
        while i < self.tasks.len()
            invariant
                i <= self.tasks.len(),
                r@.len() == i,
                forall|j: int|
                    0 <= j < i ==> #[trigger] r@[j] == task_status(self@, self.tasks@[j]),
            decreases self.tasks.len() - i,
        {
            let t = self.tasks[i];
            r.push(TaskStatusRow { task: t, binding: self.current_binding(t.id) });
            i += 1;
        }
        assert(r@ =~= self@.tasks.map_values(|t: TaskRow| task_status(self@, t)));
        r
    }

    /// The Holds in force, in the order in which they were made.
    pub fn active_holds(&self) -> (r: Vec<HoldRow>)
        ensures
            r@ == keep_where(self@.holds, crate::ledger::shutdown::is_active_hold()),
    {
        let mut r: Vec<HoldRow> = Vec::new();
        let mut i: usize = 0;
        assert(r@ =~= self@.holds.take(0));
        while i < self.holds.len()
            invariant
                i <= self.holds.len(),
                r@ == keep_where(
                    self@.holds.take(i as int),
                    crate::ledger::shutdown::is_active_hold(),
                ),
            decreases self.holds.len() - i,
        {
            proof {
                keep_step(self@.holds, crate::ledger::shutdown::is_active_hold(), i as int);
            }
            let h = self.holds[i];
            if !h.cleared {
                r.push(h);
            }
            i += 1;
        }
        assert(self@.holds.take(i as int) =~= self@.holds);
        r
    }
}

// ---------------------------------------------------------------------------------------------
// The Task graph
// ---------------------------------------------------------------------------------------------

pub open spec fn is_edge_of(task: TaskId) -> spec_fn(DependencyRow) -> bool {
    |d: DependencyRow| d.task == task
}

pub open spec fn is_edge_to(upstream: TaskId) -> spec_fn(DependencyRow) -> bool {
    |d: DependencyRow| d.upstream == upstream
}

pub open spec fn is_bound_edge_of(task: TaskId) -> spec_fn(DependencyRow) -> bool {
    |d: DependencyRow| d.task == task && d.bound
}

/// Which end of an edge orders a list.
#[derive(Debug, Clone, Copy, PartialEq, Eq, Structural)]
pub enum EdgeEnd {
    Task,
    Upstream,
}

pub open spec fn end_of(d: DependencyRow, end: EdgeEnd) -> u128 {
    match end {
        EdgeEnd::Task => d.task.0,
        EdgeEnd::Upstream => d.upstream.0,
    }
}

/// Edges ordered by the identity at one end.
pub open spec fn ordered(s: Seq<DependencyRow>, end: EdgeEnd) -> bool {
    forall|i: int, j: int|
        0 <= i < j < s.len() ==> end_of(#[trigger] s[i], end) <= end_of(#[trigger] s[j], end)
}

/// A list holds exactly the edges that `p` selects, ordered by one end.
pub open spec fn lists(
    s: Seq<DependencyRow>,
    m: Model,
    p: spec_fn(DependencyRow) -> bool,
    end: EdgeEnd,
) -> bool {
    ordered(s, end) && s.to_multiset() == keep_where(m.dependencies, p).to_multiset()
}

fn edge_end(d: DependencyRow, end: EdgeEnd) -> (r: u128)
    ensures
        r == end_of(d, end),
{
    match end {
        EdgeEnd::Task => d.task.0,
        EdgeEnd::Upstream => d.upstream.0,
    }
}

fn insert_ordered(list: &mut Vec<DependencyRow>, d: DependencyRow, end: EdgeEnd)
    requires
        ordered(old(list)@, end),
    ensures
        ordered(final(list)@, end),
        final(list)@.to_multiset() == old(list)@.to_multiset().insert(d),
{
    let mut k: usize = 0;
    let key: u128 = edge_end(d, end);
    while k < list.len() && edge_end(list[k], end) <= key
        invariant
            k <= list.len(),
            list@ == old(list)@,
            key == end_of(d, end),
            forall|j: int| 0 <= j < k ==> end_of(#[trigger] list@[j], end) <= key,
        decreases list.len() - k,
    {
        k += 1;
    }
    let ghost before = list@;
    list.insert(k, d);
    proof {
        vstd::seq_lib::to_multiset_insert(before, k as int, d);
        assert forall|x: int, y: int| 0 <= x < y < list@.len() implies end_of(
            #[trigger] list@[x],
            end,
        ) <= end_of(#[trigger] list@[y], end) by {
            if y < k {
                assert(end_of(before[x], end) <= end_of(before[y], end));
            } else if y == k {
                assert(end_of(before[x], end) <= key);
            } else if x == k {
                assert(end_of(before[k as int], end) > key);
                if y - 1 > k {
                    assert(end_of(before[k as int], end) <= end_of(before[y - 1], end));
                }
            } else if x < k {
                assert(end_of(before[x], end) <= end_of(before[y - 1], end));
            } else {
                assert(end_of(before[x - 1], end) <= end_of(before[y - 1], end));
            }
        }
    }
}

/// A Task in the graph: its edges, and what it waits for.
#[derive(Debug)]
pub struct GraphRow {
    pub status: TaskStatusRow,
    pub dependencies: Vec<DependencyRow>,
    pub dependents: Vec<DependencyRow>,
    pub position: Option<u32>,
    pub waiting_for_worker: bool,
    pub waiting_for_session: bool,
    pub waiting_for_repository: bool,
}

/// A lease that another Task has on a worktree.
pub open spec fn is_foreign_lease(worktree: WorktreeKey, task: TaskId) -> spec_fn(LeaseRow) -> bool {
    |l: LeaseRow| l.worktree == worktree && !l.released && l.task != task
}

/// What the row of the `i`th Task says.
pub open spec fn graph_row(m: Model, i: int, r: GraphRow) -> bool {
    let t = m.tasks[i];
    let waiting = t.scheduling == TaskSchedulingState::Ready && t.state == TaskState::Queued;
    let busy = some_where(m.tasks, occupies(t.worker, Some(t.id)));
    let place = count_where(m.tasks.take(i + 1), in_line(t.worker));
    &&& r.status == task_status(m, t)
    &&& lists(r.dependencies@, m, is_edge_of(t.id), EdgeEnd::Upstream)
    &&& lists(r.dependents@, m, is_edge_to(t.id), EdgeEnd::Task)
    &&& r.position == (if waiting {
        Some(
            if place > u32::MAX {
                u32::MAX
            } else {
                place as u32
            },
        )
    } else {
        None
    })
    &&& r.waiting_for_worker == (waiting && busy)
    &&& r.waiting_for_session == (waiting && current_binding(m, t.id) is None && !busy)
    &&& r.waiting_for_repository == (waiting && (held(m, t.worktree) || some_where(
        m.leases,
        is_foreign_lease(t.worktree, t.id),
    )))
}

impl Ledger {
    fn edges_of(&self, id: TaskId) -> (r: Vec<DependencyRow>)
        ensures
            lists(r@, self@, is_edge_of(id), EdgeEnd::Upstream),
    {
        let mut r: Vec<DependencyRow> = Vec::new();
        let mut i: usize = 0;
        assert(r@ =~= self@.dependencies.take(0));
        while i < self.dependencies.len()
            invariant
                i <= self.dependencies.len(),
                ordered(r@, EdgeEnd::Upstream),
                r@.to_multiset() == keep_where(
                    self@.dependencies.take(i as int),
                    is_edge_of(id),
                ).to_multiset(),
            decreases self.dependencies.len() - i,
        {
            proof {
                keep_step(self@.dependencies, is_edge_of(id), i as int);
                keep_where(self@.dependencies.take(i as int), is_edge_of(id)).to_multiset_ensures();
            }
            if self.dependencies[i].task == id {
                insert_ordered(&mut r, self.dependencies[i], EdgeEnd::Upstream);
            }
            i += 1;
        }
        assert(self@.dependencies.take(i as int) =~= self@.dependencies);
        r
    }

    fn edges_to(&self, id: TaskId) -> (r: Vec<DependencyRow>)
        ensures
            lists(r@, self@, is_edge_to(id), EdgeEnd::Task),
    {
        let mut r: Vec<DependencyRow> = Vec::new();
        let mut i: usize = 0;
        assert(r@ =~= self@.dependencies.take(0));
        while i < self.dependencies.len()
            invariant
                i <= self.dependencies.len(),
                ordered(r@, EdgeEnd::Task),
                r@.to_multiset() == keep_where(
                    self@.dependencies.take(i as int),
                    is_edge_to(id),
                ).to_multiset(),
            decreases self.dependencies.len() - i,
        {
            proof {
                keep_step(self@.dependencies, is_edge_to(id), i as int);
                keep_where(self@.dependencies.take(i as int), is_edge_to(id)).to_multiset_ensures();
            }
            if self.dependencies[i].upstream == id {
                insert_ordered(&mut r, self.dependencies[i], EdgeEnd::Task);
            }
            i += 1;
        }
        assert(self@.dependencies.take(i as int) =~= self@.dependencies);
        r
    }

    fn has_foreign_lease(&self, worktree: WorktreeKey, task: TaskId) -> (r: bool)
        ensures
            r == some_where(self@.leases, is_foreign_lease(worktree, task)),
    {
        let mut i: usize = 0;
        while i < self.leases.len()
            invariant
                i <= self.leases.len(),
                forall|j: int|
                    0 <= j < i ==> !is_foreign_lease(worktree, task)(#[trigger] self.leases@[j]),
            decreases self.leases.len() - i,
        {
            let l = self.leases[i];
            if l.worktree == worktree && !l.released && l.task != task {
                assert(is_foreign_lease(worktree, task)(self@.leases[i as int]));
                return true;
            }
            i += 1;
        }
        false
    }

    fn place_in_line(&self, i: usize) -> (r: usize)
        requires
            i < self.tasks.len(),
        ensures
            r == count_where(self@.tasks.take(i + 1), in_line(self@.tasks[i as int].worker)),
    {
        let worker = self.tasks[i].worker;
        let mut n: usize = 0;
        let mut k: usize = 0;
        while k <= i
            invariant
                k <= i + 1,
                i < self.tasks.len(),
                n <= k,
                worker == self@.tasks[i as int].worker,
                n == count_where(self@.tasks.take(k as int), in_line(worker)),
            decreases i + 1 - k,
        {
            proof {
                count_step(self@.tasks, in_line(worker), k as int);
            }
            let t = self.tasks[k];
            if t.worker == worker && t.state == TaskState::Queued && t.scheduling
                == TaskSchedulingState::Ready {
                n += 1;
            }
            k += 1;
        }
        n
    }

    fn graph_row(&self, i: usize) -> (r: GraphRow)
        requires
            i < self.tasks.len(),
        ensures
            graph_row(self@, i as int, r),
    {
        let t = self.tasks[i];
        let binding = self.current_binding(t.id);
        let waiting = t.scheduling == TaskSchedulingState::Ready && t.state == TaskState::Queued;
        let busy = self.is_occupied(t.worker, Some(t.id));
        let place = self.place_in_line(i);
        let position = if waiting {
            if place > 0xffff_ffff {
                Some(u32::MAX)
            } else {
                Some(place as u32)
            }
        } else {
            None
        };
        let blocked = self.is_held(t.worktree) || self.has_foreign_lease(t.worktree, t.id);
        GraphRow {
            status: TaskStatusRow { task: t, binding },
            dependencies: self.edges_of(t.id),
            dependents: self.edges_to(t.id),
            position,
            waiting_for_worker: waiting && busy,
            waiting_for_session: waiting && binding.is_none() && !busy,
            waiting_for_repository: waiting && blocked,
        }
    }

    /// The graph of all Tasks, in the order of creation.
    pub fn task_graph(&self) -> (r: Vec<GraphRow>)
        ensures
            r@.len() == self@.tasks.len(),
            forall|i: int| 0 <= i < r@.len() ==> graph_row(self@, i, #[trigger] r@[i]),
    {
        let mut r: Vec<GraphRow> = Vec::new();
        let mut i: usize = 0;
        while i < self.tasks.len()
            invariant
                i <= self.tasks.len(),
                r@.len() == i,
                forall|j: int| 0 <= j < i ==> graph_row(self@, j, #[trigger] r@[j]),
            decreases self.tasks.len() - i,
        {
            let row = self.graph_row(i);
            r.push(row);
            i += 1;
        }
        r
    }
}

// ---------------------------------------------------------------------------------------------
// Supervisor events
// ---------------------------------------------------------------------------------------------

/// The Attachments that come with an event: those of the Question, or of the Result, that it
/// reports.
pub open spec fn event_attachments(m: Model, e: EventRow) -> Seq<AttachmentId> {
    match e.origin {
        EventOrigin::Question { message } => attachments_of(
            m,
            AttachmentOwner::Message { message },
        ),
        EventOrigin::Result { task, revision } => attachments_of(
            m,
            AttachmentOwner::Result { task, revision },
        ),
        _ => Seq::empty(),
    }
}

/// An event with its Attachments.
#[derive(Debug)]
pub struct EventStatusRow {
    pub event: EventRow,
    pub attachments: Vec<AttachmentId>,
}

pub open spec fn event_status(m: Model, e: EventRow, r: EventStatusRow) -> bool {
    r.event == e && r.attachments@ == event_attachments(m, e)
}

impl Ledger {
    /// The Attachments that come with an event.
    pub fn event_attachments(&self, e: EventRow) -> (r: Vec<AttachmentId>)
        ensures
            r@ == event_attachments(self@, e),
    {
        match e.origin {
            EventOrigin::Question { message } => self.attachments_of(
                AttachmentOwner::Message { message },
            ),
            EventOrigin::Result { task, revision } => self.attachments_of(
                AttachmentOwner::Result { task, revision },
            ),
            _ => Vec::new(),
        }
    }

    /// All events with their Attachments, in the order of attention.
    pub fn supervisor_events(&self) -> (r: Vec<EventStatusRow>)
        ensures
            r@.len() == self@.events.len(),
            forall|i: int|
                0 <= i < r@.len() ==> event_status(self@, self@.events[i], #[trigger] r@[i]),
    {
        let mut r: Vec<EventStatusRow> = Vec::new();
        let mut i: usize = 0;
        while i < self.events.len()
            invariant
                i <= self.events.len(),
                r@.len() == i,
                forall|j: int|
                    0 <= j < i ==> event_status(self@, self@.events[j], #[trigger] r@[j]),
            decreases self.events.len() - i,
        {
            let event = self.events[i];
            let attachments = self.event_attachments(event);
            r.push(EventStatusRow { event, attachments });
            i += 1;
        }
        r
    }
}

// ---------------------------------------------------------------------------------------------
// Frozen inputs
// ---------------------------------------------------------------------------------------------

/// Every bound edge of a Task carries the Result that it was satisfied by.
pub open spec fn inputs_frozen(m: Model, task: TaskId) -> bool {
    forall|i: int|
        0 <= i < m.dependencies.len() && is_bound_edge_of(task)(#[trigger] m.dependencies[i])
            ==> m.dependencies[i].satisfied is Some && m.dependencies[i].snapshot is Some
}

/// Immutable upstream Result reference delivered to a dependent Worker.
#[derive(Debug, Clone, Copy, PartialEq, Eq, Structural)]
pub struct DependencyResultRef {
    pub task_id: TaskId,
    pub result_revision: u32,
    pub attachment_id: AttachmentId,
}

pub open spec fn result_ref(d: DependencyRow) -> DependencyResultRef {
    DependencyResultRef {
        task_id: d.upstream,
        result_revision: d.satisfied->0,
        attachment_id: d.snapshot->0,
    }
}

/// Why the frozen inputs of a Task are not given to an actor.
pub open spec fn input_refusal(m: Model, actor: AuthenticatedActor, task: TaskId) -> Option<Refusal> {
    match find_task(m, task) {
        None => Some(no_such_task()),
        Some(t) => if actor.tier != HarnessTier::Supervisor && t.worker != actor.id {
            Some(
                refusal(
                    ErrorCategory::Forbidden,
                    "only the Supervisor or assigned Worker may resolve Task input"@,
                ),
            )
        } else {
            None
        },
    }
}

/// The list of references made of ordered edges.
pub open spec fn refs_of(r: Seq<DependencyResultRef>, edges: Seq<DependencyRow>) -> bool {
    r.len() == edges.len() && forall|i: int|
        0 <= i < r.len() ==> #[trigger] r[i] == result_ref(edges[i])
}

/// The Attachments of the submission of a Task, and references to the Results that its bound edges
/// carry, ordered by upstream Task.
pub open spec fn gives_inputs(m: Model, task: TaskId, r: ResolvedTaskInputView) -> bool {
    &&& r.explicit_attachments@ == attachments_of(m, AttachmentOwner::Task { task })
    &&& exists|edges: Seq<DependencyRow>| #[trigger]
        lists(edges, m, is_bound_edge_of(task), EdgeEnd::Upstream) && refs_of(
            r.dependency_results@,
            edges,
        )
}

proof fn kept_are_selected<A>(s: Seq<A>, p: spec_fn(A) -> bool, x: A)
    requires
        keep_where(s, p).contains(x),
    ensures
        p(x) && s.contains(x),
    decreases s.len(),
{
    let k = choose|k: int| 0 <= k < keep_where(s, p).len() && keep_where(s, p)[k] == x;
    if s.len() > 0 {
        if p(s.last()) && k == keep_where(s, p).len() - 1 {
            assert(s[s.len() - 1] == x);
        } else {
            assert(keep_where(s.drop_last(), p)[k] == x);
            kept_are_selected(s.drop_last(), p, x);
            let j = choose|j: int| 0 <= j < s.drop_last().len() && s.drop_last()[j] == x;
            assert(s[j] == x);
        }
    }
}

impl Ledger {
    fn bound_edges_of(&self, id: TaskId) -> (r: Vec<DependencyRow>)
        ensures
            lists(r@, self@, is_bound_edge_of(id), EdgeEnd::Upstream),
    {
        let mut r: Vec<DependencyRow> = Vec::new();
        let mut i: usize = 0;
        assert(r@ =~= self@.dependencies.take(0));
        while i < self.dependencies.len()
            invariant
                i <= self.dependencies.len(),
                ordered(r@, EdgeEnd::Upstream),
                r@.to_multiset() == keep_where(
                    self@.dependencies.take(i as int),
                    is_bound_edge_of(id),
                ).to_multiset(),
            decreases self.dependencies.len() - i,
        {
            proof {
                keep_step(self@.dependencies, is_bound_edge_of(id), i as int);
                keep_where(
                    self@.dependencies.take(i as int),
                    is_bound_edge_of(id),
                ).to_multiset_ensures();
            }
            let d = self.dependencies[i];
            if d.task == id && d.bound {
                insert_ordered(&mut r, d, EdgeEnd::Upstream);
            }
            i += 1;
        }
        assert(self@.dependencies.take(i as int) =~= self@.dependencies);
        r
    }

    /// What a dispatched Task reads: the Attachments of its submission and upstream Results.
    pub fn resolved_task_input(&self, actor: AuthenticatedActor, task: TaskId) -> (r: Result<
        ResolvedTaskInputView,
        CoordinatorError,
    >)
        requires
            inputs_frozen(self@, task),
        ensures
            match input_refusal(self@, actor, task) {
                Some(e) => r is Err && r->Err_0@ == e,
                None => r is Ok && gives_inputs(self@, task, r->Ok_0),
            },
    {
        let t = match self.task(task) {
            None => {
                return Err(refuse(ErrorCategory::NotFound, "Task does not exist"));
            },
            Some(t) => t,
        };
        if actor.tier != HarnessTier::Supervisor && t.worker != actor.id {
            return Err(
                refuse(
                    ErrorCategory::Forbidden,
                    "only the Supervisor or assigned Worker may resolve Task input",
                ),
            );
        }
        let edges = self.bound_edges_of(task);
        let mut r: Vec<DependencyResultRef> = Vec::new();
        let mut i: usize = 0;
        while i < edges.len()
            invariant
                i <= edges.len(),
                r@.len() == i,
                inputs_frozen(self@, task),
                lists(edges@, self@, is_bound_edge_of(task), EdgeEnd::Upstream),
                forall|j: int| 0 <= j < i ==> #[trigger] r@[j] == result_ref(edges@[j]),
            decreases edges.len() - i,
        {
            let d = edges[i];
            proof {
                let kept = keep_where(self@.dependencies, is_bound_edge_of(task));
                edges@.to_multiset_ensures();
                kept.to_multiset_ensures();
                assert(edges@[i as int] == d);
                assert(edges@.contains(d));
                assert(edges@.to_multiset().count(d) > 0);
                assert(kept.to_multiset().count(d) > 0);
                assert(kept.contains(d));
                kept_are_selected(self@.dependencies, is_bound_edge_of(task), d);
            }
            match (d.satisfied, d.snapshot) {
                (Some(result_revision), Some(attachment_id)) => {
                    r.push(
                        DependencyResultRef { task_id: d.upstream, result_revision, attachment_id },
                    );
                },
                _ => {
                    assert(false);
                },
            }
            i += 1;
        }
        assert(refs_of(r@, edges@));
        let explicit_attachments = self.attachments_of(AttachmentOwner::Task { task });
        Ok(ResolvedTaskInputView { explicit_attachments, dependency_results: r })
    }

    /// The live Session of an actor, with the number of its Harness definition.
    pub fn session_self(&self, actor: AuthenticatedActor) -> (r: Result<
        (SessionRow, TextKey),
        CoordinatorError,
    >)
        ensures
            outcome(r) == session_self(self@, actor),
    {
        match self.live_session_position(actor.session) {
            Some(i) => match self.harness(self.sessions[i].harness) {
                Some(h) => Ok((self.sessions[i], h.definition)),
                None => Err(refuse(ErrorCategory::NotFound, "Session is no longer active")),
            },
            None => Err(refuse(ErrorCategory::NotFound, "Session is no longer active")),
        }
    }
}

/// The launch context of a live Session.
pub open spec fn session_self(m: Model, actor: AuthenticatedActor) -> Result<
    (SessionRow, TextKey),
    Refusal,
> {
    let gone = refusal(ErrorCategory::NotFound, "Session is no longer active"@);
    match first_where(m.sessions, is_live_session(actor.session)) {
        None => Err(gone),
        Some(i) => match first_where(m.harnesses, is_harness(m.sessions[i].harness)) {
            None => Err(gone),
            Some(h) => Ok((m.sessions[i], m.harnesses[h].definition)),
        },
    }
}

} // verus!

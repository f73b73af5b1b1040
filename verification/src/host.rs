//! Decisions of the pane-resident Worker Host and of the terminal popup.
use vstd::prelude::*;

use crate::adapter::{AdapterCapabilities, AdapterLifecycle, NativeDeliveryKind, NativeTurnStatus};
use crate::contract::{DeliveryIntent, HarnessKind, HarnessTier, TaskState};
use crate::digest::{digest_form, digest_text};
use crate::identity::{uuid_form, uuid_text, TaskId};
use crate::ledger::{active_state, is_active_state};
use crate::select::{first_found, first_missing, first_where, some_where};
use crate::text::{decimal, decimal_text, optional_text, same_text};
use crate::views::{HarnessStatusView, HoldView, InboxMessageView, TaskView};
use vstd::utf8::*;

verus! {

// ---------------------------------------------------------------------------------------------
// Bootstrap
// ---------------------------------------------------------------------------------------------

/// Why a Worker Session cannot be hosted: its launch profile has to be on record, unaltered.
pub open spec fn profile_refusal(
    snapshot: Option<Seq<char>>,
    digest: Option<Seq<char>>,
) -> Option<Seq<char>> {
    match (snapshot, digest) {
        (None, _) => Some("Worker Session has no launch profile snapshot"@),
        (Some(_), None) => Some("Worker Session has no launch profile digest"@),
        (Some(s), Some(d)) => if digest_form(encode_utf8(s)) != d {
            Some("Worker launch profile snapshot digest does not match durable Session state"@)
        } else {
            None
        },
    }
}

/// Requires a launch profile that is on record, unaltered.
pub fn require_profile(snapshot: &Option<String>, digest: &Option<String>) -> (r: Result<(), String>)
    ensures
        match profile_refusal(optional_text(*snapshot), optional_text(*digest)) {
            None => r is Ok,
            Some(text) => r is Err && r->Err_0@ == text,
        },
{
    match (snapshot, digest) {
        (None, _) => Err("Worker Session has no launch profile snapshot".to_owned()),
        (Some(_), None) => Err("Worker Session has no launch profile digest".to_owned()),
        (Some(s), Some(d)) => {
            let actual = digest_text(s.as_str());
            if same_text(actual.as_str(), d.as_str()) {
                Ok(())
            } else {
                Err(
                    "Worker launch profile snapshot digest does not match durable Session state".to_owned(),
                )
            }
        },
    }
}

/// Requires the Harness Kind that a launch profile was made for.
pub fn require_kind(profile: HarnessKind, registered: HarnessKind) -> (r: Result<(), String>)
    ensures
        match r {
            Ok(_) => profile == registered,
            Err(e) => profile != registered && e@
                == "Worker Harness Kind differs from its durable launch profile"@,
        },
{
    if profile != registered {
        return Err("Worker Harness Kind differs from its durable launch profile".to_owned());
    }
    Ok(())
}

// ---------------------------------------------------------------------------------------------
// Environment
// ---------------------------------------------------------------------------------------------

/// A variable with a name.
pub open spec fn is_variable(name: Seq<char>) -> spec_fn((String, String)) -> bool {
    |v: (String, String)| v.0@ == name
}

/// The value of a variable.
pub open spec fn value_of(env: Seq<(String, String)>, name: Seq<char>) -> Option<Seq<char>> {
    match first_where(env, is_variable(name)) {
        Some(i) => Some(env[i].1@),
        None => None,
    }
}

/// Reads a variable.
pub fn read_variable<'a>(env: &'a Vec<(String, String)>, name: &str) -> (r: Option<&'a str>)
    ensures
        match r {
            Some(value) => value_of(env@, name@) == Some(value@),
            None => value_of(env@, name@) is None,
        },
{
    let mut i: usize = 0;
    while i < env.len()
        invariant
            i <= env.len(),
            forall|j: int| 0 <= j < i ==> !is_variable(name@)(#[trigger] env@[j]),
        decreases env.len() - i,
    {
        if same_text(env[i].0.as_str(), name) {
            proof {
                first_found(env@, is_variable(name@), i as int);
            }
            return Some(env[i].1.as_str());
        }
        i += 1;
    }
    proof {
        first_missing(env@, is_variable(name@));
    }
    None
}

/// No variable stands twice.
pub open spec fn named_once(env: Seq<(String, String)>) -> bool {
    forall|i: int, j: int|
        0 <= i < j < env.len() ==> (#[trigger] env[i]).0@ != (#[trigger] env[j]).0@
}

/// Sets a variable, in place of a former value.
pub fn set_variable(env: &mut Vec<(String, String)>, name: &str, value: &str)
    ensures
        named_once(old(env)@) ==> named_once(final(env)@),
        forall|other: Seq<char>| #[trigger]
            value_of(final(env)@, other) == (if other == name@ {
                Some(value@)
            } else {
                value_of(old(env)@, other)
            }),
{
    let ghost before = env@;
    let mut i: usize = 0;
    while i < env.len()
        invariant
            i <= env.len(),
            env@ == before,
            forall|j: int| 0 <= j < i ==> !is_variable(name@)(#[trigger] env@[j]),
            before == old(env)@,
        decreases env.len() - i,
    {
        if same_text(env[i].0.as_str(), name) {
            env.set(i, (name.to_owned(), value.to_owned()));
            proof {
                assert forall|other: Seq<char>| #[trigger]
                    value_of(env@, other) == (if other == name@ {
                        Some(value@)
                    } else {
                        value_of(before, other)
                    }) by {
                    replaced_value(before, env@, i as int, other);
                }
            }
            return ;
        }
        i += 1;
    }
    env.push((name.to_owned(), value.to_owned()));
    proof {
        assert forall|other: Seq<char>| #[trigger]
            value_of(env@, other) == (if other == name@ {
                Some(value@)
            } else {
                value_of(before, other)
            }) by {
            added_value(before, env@, other);
        }
    }
}

proof fn replaced_value(
    before: Seq<(String, String)>,
    after: Seq<(String, String)>,
    i: int,
    other: Seq<char>,
)
    requires
        0 <= i < before.len(),
        after.len() == before.len(),
        forall|j: int| 0 <= j < before.len() && j != i ==> #[trigger] after[j] == before[j],
        after[i].0@ == before[i].0@,
        forall|j: int| 0 <= j < i ==> (#[trigger] before[j]).0@ != before[i].0@,
    ensures
        value_of(after, other) == (if other == before[i].0@ {
            Some(after[i].1@)
        } else {
            value_of(before, other)
        }),
{
    let p = is_variable(other);
    crate::select::first_says(before, p);
    match first_where(before, p) {
        Some(k) => {
            assert forall|j: int| 0 <= j < k implies !p(#[trigger] after[j]) by {
                assert(!p(before[j]));
            }
            assert(p(after[k])) by {
                assert(p(before[k]));
            }
            first_found(after, p, k);
            if other == before[i].0@ {
                assert(p(before[i]));
                if k < i {
                    assert(before[k].0@ != before[i].0@);
                }
                if i < k {
                    assert(!p(before[i]));
                }
            }
        },
        None => {
            assert(!p(before[i]));
            assert forall|j: int| 0 <= j < after.len() implies !p(#[trigger] after[j]) by {
                assert(!p(before[j]));
            }
            first_missing(after, p);
        },
    }
}

proof fn added_value(before: Seq<(String, String)>, after: Seq<(String, String)>, other: Seq<char>)
    requires
        after.len() == before.len() + 1,
        forall|j: int| 0 <= j < before.len() ==> #[trigger] after[j] == before[j],
        forall|j: int| 0 <= j < before.len() ==> (#[trigger] before[j]).0@ != after.last().0@,
    ensures
        value_of(after, other) == (if other == after.last().0@ {
            Some(after.last().1@)
        } else {
            value_of(before, other)
        }),
{
    let p = is_variable(other);
    let last = before.len() as int;
    crate::select::first_says(before, p);
    match first_where(before, p) {
        Some(k) => {
            assert(p(before[k]));
            assert forall|j: int| 0 <= j < k implies !p(#[trigger] after[j]) by {
                assert(!p(before[j]));
            }
            assert(after[k] == before[k]);
            first_found(after, p, k);
        },
        None => {
            assert forall|j: int| 0 <= j < last implies !p(#[trigger] after[j]) by {
                assert(!p(before[j]));
            }
            if other == after.last().0@ {
                assert(p(after[last]));
                first_found(after, p, last);
            } else {
                assert forall|j: int| 0 <= j < after.len() implies !p(#[trigger] after[j]) by {
                    if j < last {
                        assert(!p(before[j]));
                    }
                }
                first_missing(after, p);
            }
        },
    }
}

/// The environment of a provider: what it inherits, and how it reaches the Coordinator.
pub open spec fn coordinated(
    env: Seq<(String, String)>,
    inherited: Seq<(String, String)>,
    bearer: Seq<char>,
    socket: Seq<char>,
    state_dir: Seq<char>,
) -> bool {
    forall|name: Seq<char>| #[trigger]
        value_of(env, name) == (if name == "HERDR_PLUGIN_STATE_DIR"@ {
            Some(state_dir)
        } else if name == "HERDR_COORDINATOR_SOCKET"@ {
            Some(socket)
        } else if name == "HERDR_HARNESS_CAPABILITY"@ {
            Some(bearer)
        } else {
            value_of(inherited, name)
        })
}

/// Makes the environment of a provider.
pub fn provider_environment(
    inherited: Vec<(String, String)>,
    bearer: &str,
    socket: &str,
    state_dir: &str,
) -> (r: Vec<(String, String)>)
    ensures
        coordinated(r@, inherited@, bearer@, socket@, state_dir@),
{
    let mut env = inherited;
    set_variable(&mut env, "HERDR_HARNESS_CAPABILITY", bearer);
    set_variable(&mut env, "HERDR_COORDINATOR_SOCKET", socket);
    set_variable(&mut env, "HERDR_PLUGIN_STATE_DIR", state_dir);
    env
}

// ---------------------------------------------------------------------------------------------
// Deliveries
// ---------------------------------------------------------------------------------------------

/// How a Message reaches a provider: a follow-up waits while the provider works and cannot queue
/// it.
pub open spec fn delivery_kind(
    intent: DeliveryIntent,
    lifecycle: AdapterLifecycle,
    queues: bool,
) -> Option<NativeDeliveryKind> {
    match intent {
        DeliveryIntent::Steer => Some(NativeDeliveryKind::Steer),
        DeliveryIntent::FollowUp => if lifecycle == AdapterLifecycle::Working {
            if queues {
                Some(NativeDeliveryKind::FollowUp)
            } else {
                None
            }
        } else {
            Some(NativeDeliveryKind::StartTurn)
        },
    }
}

/// Decides how a Message reaches a provider.
pub fn resolve_delivery(
    intent: DeliveryIntent,
    lifecycle: AdapterLifecycle,
    capabilities: AdapterCapabilities,
) -> (r: Option<NativeDeliveryKind>)
    ensures
        r == delivery_kind(intent, lifecycle, capabilities.active_turn_follow_up),
{
    match intent {
        DeliveryIntent::Steer => Some(NativeDeliveryKind::Steer),
        DeliveryIntent::FollowUp => if lifecycle == AdapterLifecycle::Working {
            if capabilities.active_turn_follow_up {
                Some(NativeDeliveryKind::FollowUp)
            } else {
                None
            }
        } else {
            Some(NativeDeliveryKind::StartTurn)
        },
    }
}

/// How one native delivery went.
#[derive(Debug, Clone, Copy, PartialEq, Eq, Structural)]
pub enum DeliveryResult {
    /// The provider accepted it.
    Accepted,
    /// It failed after bytes may have reached the provider.
    Ambiguous,
    /// It failed before anything was written.
    Unwritten,
}

/// Attempts of a delivery that fails before anything is written.
pub const PRE_WRITE_RETRIES: usize = 3;

/// Whether a delivery is tried again after `tried` attempts.
pub fn tries_again(tried: usize, result: DeliveryResult) -> (r: bool)
    ensures
        r == (result == DeliveryResult::Unwritten && tried < PRE_WRITE_RETRIES),
{
    result == DeliveryResult::Unwritten && tried < PRE_WRITE_RETRIES
}

// ---------------------------------------------------------------------------------------------
// The Host loop
// ---------------------------------------------------------------------------------------------

/// Milliseconds that a cooperative cancellation may take.
pub const CANCELLATION_LIMIT: u64 = 15_000;

/// What a Worker Host remembers between events; instants are milliseconds.
#[derive(Debug, Clone, Copy, PartialEq, Eq)]
pub struct WorkerHost {
    /// Task of the native turn.
    pub current: Option<TaskId>,
    /// Task whose native turn was asked to stop, and when.
    pub cancelling: Option<(TaskId, u64)>,
    /// Sequence of the last recorded event.
    pub sequence: u64,
}

/// What follows a look at the Tasks.
#[derive(Debug, Clone, Copy, PartialEq, Eq, Structural)]
pub enum CancelStep {
    /// Nothing is to be cancelled.
    Nothing,
    /// Ask the provider to stop its turn.
    Interrupt { task: TaskId },
    /// The Task has no native turn: its cancellation is done.
    Confirm { task: TaskId },
}

/// What follows an event of the provider.
#[derive(Debug, Clone, Copy, PartialEq, Eq, Structural)]
pub enum EventStep {
    /// Go on.
    Continue,
    /// A turn of a Task ended: look at the Task.
    Settle { task: TaskId },
    /// The provider is gone.
    Stop,
}

/// What kind of event a provider reported.
#[derive(Debug, Clone, Copy, PartialEq, Eq, Structural)]
pub enum EventKind {
    TurnCompleted,
    Gone,
    Other,
}

/// What is reported of a turn that ended.
#[derive(Debug, Clone, Copy, PartialEq, Eq, Structural)]
pub enum TurnReport {
    /// The Task was being cancelled.
    Cancellation { task: TaskId, succeeded: bool },
    /// The turn ended by itself.
    Turn { task: TaskId, succeeded: bool },
}

/// A Task of a Worker that is being cancelled.
pub open spec fn is_cancelling_of(worker: Seq<char>) -> spec_fn(TaskView) -> bool {
    |t: TaskView| t.worker_id@ == worker && t.state == TaskState::Cancelling
}

/// A Task that occupies a Worker.
pub open spec fn is_active_of(worker: Seq<char>) -> spec_fn(TaskView) -> bool {
    |t: TaskView| t.worker_id@ == worker && active_state(t.state)
}

/// The first Task of a Worker that is being cancelled.
pub fn first_cancelling(tasks: &Vec<TaskView>, worker: &str) -> (r: Option<TaskId>)
    ensures
        r == (match first_where(tasks@, is_cancelling_of(worker@)) {
            Some(i) => Some(tasks@[i].id),
            None => None,
        }),
{
    let mut i: usize = 0;
    while i < tasks.len()
        invariant
            i <= tasks.len(),
            forall|j: int| 0 <= j < i ==> !is_cancelling_of(worker@)(#[trigger] tasks@[j]),
        decreases tasks.len() - i,
    {
        if tasks[i].state == TaskState::Cancelling && same_text(tasks[i].worker_id.as_str(), worker) {
            proof {
                first_found(tasks@, is_cancelling_of(worker@), i as int);
            }
            return Some(tasks[i].id);
        }
        i += 1;
    }
    proof {
        first_missing(tasks@, is_cancelling_of(worker@));
    }
    None
}

/// Whether a Session was asked to stop, as its activity says.
pub fn is_stopping(activity: &str) -> (r: bool)
    ensures
        r == (activity@ == "stopping"@),
{
    same_text(activity, "stopping")
}

/// Whether a Task occupies a Worker.
pub fn has_active(tasks: &Vec<TaskView>, worker: &str) -> (r: bool)
    ensures
        r == some_where(tasks@, is_active_of(worker@)),
{
    let mut i: usize = 0;
    while i < tasks.len()
        invariant
            i <= tasks.len(),
            forall|j: int| 0 <= j < i ==> !is_active_of(worker@)(#[trigger] tasks@[j]),
        decreases tasks.len() - i,
    {
        if is_active_state(tasks[i].state) && same_text(tasks[i].worker_id.as_str(), worker) {
            assert(is_active_of(worker@)(tasks@[i as int]));
            return true;
        }
        i += 1;
    }
    false
}

impl WorkerHost {
    /// A Host that continues an event sequence.
    pub fn new(sequence: u64) -> (r: WorkerHost)
        ensures
            r == (WorkerHost { current: None, cancelling: None, sequence }),
    {
        WorkerHost { current: None, cancelling: None, sequence }
    }

    /// Takes in the first Task of the Worker that is being cancelled: its turn is interrupted once.
    pub fn on_tasks(&mut self, cancelling: Option<TaskId>, now: u64) -> (r: CancelStep)
        ensures
            (r, *final(self)) == cancel_step(*old(self), cancelling, now),
    {
        match cancelling {
            None => CancelStep::Nothing,
            Some(task) => {
                let asked = match self.cancelling {
                    Some((id, _)) => id == task,
                    None => false,
                };
                if asked {
                    return CancelStep::Nothing;
                }
                let running = match self.current {
                    Some(id) => id == task,
                    None => false,
                };
                if running {
                    self.cancelling = Some((task, now));
                    CancelStep::Interrupt { task }
                } else {
                    CancelStep::Confirm { task }
                }
            },
        }
    }

    /// The Task whose cancellation took too long.
    pub fn overdue(&self, now: u64) -> (r: Option<TaskId>)
        ensures
            r == overdue_at(*self, now),
    {
        match self.cancelling {
            Some((task, since)) => if now >= since && now - since >= CANCELLATION_LIMIT {
                Some(task)
            } else {
                None
            },
            None => None,
        }
    }

    /// Takes in an event of the provider: its number goes up by one, and a turn that ended is the
    /// current Task's.
    pub fn on_event(&mut self, kind: EventKind) -> (r: EventStep)
        ensures
            (r, *final(self)) == event_step(*old(self), kind),
    {
        if self.sequence < u64::MAX {
            self.sequence = self.sequence + 1;
        }
        match kind {
            EventKind::TurnCompleted => match self.current {
                Some(task) => {
                    self.current = None;
                    EventStep::Settle { task }
                },
                None => EventStep::Continue,
            },
            EventKind::Gone => EventStep::Stop,
            EventKind::Other => EventStep::Continue,
        }
    }

    /// Decides what is reported of a turn that ended.
    pub fn on_turn_end(&mut self, task: TaskId, state: TaskState, status: NativeTurnStatus) -> (r:
        TurnReport)
        ensures
            (r, *final(self)) == turn_report(*old(self), task, state, status),
    {
        if state == TaskState::Cancelling {
            self.cancelling = None;
            TurnReport::Cancellation {
                task,
                succeeded: status == NativeTurnStatus::Interrupted || status
                    == NativeTurnStatus::Completed,
            }
        } else {
            TurnReport::Turn { task, succeeded: status == NativeTurnStatus::Completed }
        }
    }
}

/// What a Task that is being cancelled asks of its Host.
pub open spec fn cancel_step(host: WorkerHost, cancelling: Option<TaskId>, now: u64) -> (
    CancelStep,
    WorkerHost,
) {
    match cancelling {
        None => (CancelStep::Nothing, host),
        Some(task) => if host.cancelling is Some && (host.cancelling->0).0 == task {
            (CancelStep::Nothing, host)
        } else if host.current == Some(task) {
            (
                CancelStep::Interrupt { task },
                WorkerHost { cancelling: Some((task, now)), ..host },
            )
        } else {
            (CancelStep::Confirm { task }, host)
        },
    }
}

/// The Task whose cancellation took too long.
pub open spec fn overdue_at(host: WorkerHost, now: u64) -> Option<TaskId> {
    match host.cancelling {
        Some((task, since)) => if now >= since + CANCELLATION_LIMIT {
            Some(task)
        } else {
            None
        },
        None => None,
    }
}

/// What an event of the provider asks of its Host.
pub open spec fn event_step(host: WorkerHost, kind: EventKind) -> (EventStep, WorkerHost) {
    let counted = WorkerHost {
        sequence: if host.sequence < u64::MAX {
            (host.sequence + 1) as u64
        } else {
            u64::MAX
        },
        ..host
    };
    match kind {
        EventKind::TurnCompleted => match host.current {
            Some(task) => (EventStep::Settle { task }, WorkerHost { current: None, ..counted }),
            None => (EventStep::Continue, counted),
        },
        EventKind::Gone => (EventStep::Stop, counted),
        EventKind::Other => (EventStep::Continue, counted),
    }
}

/// What is reported of a turn that ended: the end of a turn that was to be cancelled settles the
/// cancellation.
pub open spec fn turn_report(
    host: WorkerHost,
    task: TaskId,
    state: TaskState,
    status: NativeTurnStatus,
) -> (TurnReport, WorkerHost) {
    if state == TaskState::Cancelling {
        (
            TurnReport::Cancellation { task, succeeded: status != NativeTurnStatus::Failed },
            WorkerHost { cancelling: None, ..host },
        )
    } else {
        (TurnReport::Turn { task, succeeded: status == NativeTurnStatus::Completed }, host)
    }
}

/// A Task is never asked to stop twice: after an interruption the same Task asks for nothing until
/// its turn ends.
pub proof fn turns_are_interrupted_once(host: WorkerHost, task: TaskId, now: u64, later: u64)
    ensures
        ({
            let (step, after) = cancel_step(host, Some(task), now);
            step == (CancelStep::Interrupt { task }) ==> cancel_step(after, Some(task), later) == (
                CancelStep::Nothing,
                after,
            )
        }),
{
}

// ---------------------------------------------------------------------------------------------
// The popup
// ---------------------------------------------------------------------------------------------

pub open spec fn tier_word(tier: HarnessTier) -> Seq<char> {
    match tier {
        HarnessTier::Supervisor => "Supervisor"@,
        HarnessTier::Worker => "Worker"@,
    }
}

pub open spec fn state_word(state: TaskState) -> Seq<char> {
    match state {
        TaskState::Queued => "Queued"@,
        TaskState::Dispatching => "Dispatching"@,
        TaskState::Working => "Working"@,
        TaskState::Waiting => "Waiting"@,
        TaskState::Reviewing => "Reviewing"@,
        TaskState::Cancelling => "Cancelling"@,
        TaskState::DeliveryUnknown => "DeliveryUnknown"@,
        TaskState::Approved => "Approved"@,
        TaskState::Cancelled => "Cancelled"@,
        TaskState::Failed => "Failed"@,
    }
}

fn tier_text(tier: HarnessTier) -> (r: &'static str)
    ensures
        r@ == tier_word(tier),
{
    match tier {
        HarnessTier::Supervisor => "Supervisor",
        HarnessTier::Worker => "Worker",
    }
}

fn state_text(state: TaskState) -> (r: &'static str)
    ensures
        r@ == state_word(state),
{
    match state {
        TaskState::Queued => "Queued",
        TaskState::Dispatching => "Dispatching",
        TaskState::Working => "Working",
        TaskState::Waiting => "Waiting",
        TaskState::Reviewing => "Reviewing",
        TaskState::Cancelling => "Cancelling",
        TaskState::DeliveryUnknown => "DeliveryUnknown",
        TaskState::Approved => "Approved",
        TaskState::Cancelled => "Cancelled",
        TaskState::Failed => "Failed",
    }
}

/// The line of a Harness.
pub open spec fn harness_line(h: HarnessStatusView) -> Seq<char> {
    (if h.presence@ == "online"@ {
        "● "@
    } else {
        "○ "@
    }) + h.id@ + " · "@ + tier_word(h.tier) + " · "@ + h.activity@ + " · inbox "@ + decimal(
        h.unread_messages as nat,
    ) + "\n"@
}

/// The line of a Task.
pub open spec fn task_line(t: TaskView) -> Seq<char> {
    uuid_form(t.id.0) + " · "@ + t.worker_id@ + " · "@ + state_word(t.state) + " · revision "@
        + decimal(t.result_revision as nat) + "\n"@
}

/// The line of a Message.
pub open spec fn message_line(x: InboxMessageView) -> Seq<char> {
    uuid_form(x.id.0) + " · "@ + x.sender_id@ + " · "@ + x.kind@ + " · "@ + (
    match x.delivery_state {
        Some(state) => state@,
        None => "pending"@,
    }) + "\n"@
}

/// The line of a Hold.
pub open spec fn hold_line(h: HoldView) -> Seq<char> {
    uuid_form(h.task_id.0) + " · "@ + h.repository_key@ + " · "@ + h.reason@ + "\n"@
}

/// The first `n` lines.
pub open spec fn lines<A>(rows: Seq<A>, line: spec_fn(A) -> Seq<char>, n: nat) -> Seq<char>
    decreases n,
{
    if n == 0 {
        Seq::empty()
    } else {
        lines(rows, line, (n - 1) as nat) + line(rows[n - 1])
    }
}

/// The popup: Harnesses, Tasks, the inbox, and Holds where there are any.
pub open spec fn popup_text(
    status: Seq<HarnessStatusView>,
    tasks: Seq<TaskView>,
    inbox: Seq<InboxMessageView>,
    holds: Seq<HoldView>,
) -> Seq<char> {
    "Harness Network\n\n"@ + lines(
        status,
        |h: HarnessStatusView| harness_line(h),
        status.len(),
    ) + "\nTasks\n"@ + lines(tasks, |t: TaskView| task_line(t), tasks.len()) + "\nInbox\n"@ + lines(
        inbox,
        |x: InboxMessageView| message_line(x),
        inbox.len(),
    ) + (if holds.len() == 0 {
        Seq::empty()
    } else {
        "\nWorktree Holds\n"@ + lines(holds, |h: HoldView| hold_line(h), holds.len())
    })
}

fn write_harnesses(out: &mut String, rows: &Vec<HarnessStatusView>)
    ensures
        final(out)@ == old(out)@ + lines(
            rows@,
            |h: HarnessStatusView| harness_line(h),
            rows@.len(),
        ),
{
    let ghost head = out@;
    let ghost line = |h: HarnessStatusView| harness_line(h);
    let mut i: usize = 0;
    assert(out@ =~= head + lines(rows@, line, 0));
    while i < rows.len()
        invariant
            i <= rows.len(),
            line == (|h: HarnessStatusView| harness_line(h)),
            out@ == head + lines(rows@, line, i as nat),
        decreases rows.len() - i,
    {
        let h = &rows[i];
        let ghost before = out@;
        if same_text(h.presence.as_str(), "online") {
            out.append("● ");
        } else {
            out.append("○ ");
        }
        out.append(h.id.as_str());
        out.append(" · ");
        out.append(tier_text(h.tier));
        out.append(" · ");
        out.append(h.activity.as_str());
        out.append(" · inbox ");
        let n = decimal_text(h.unread_messages as u64);
        out.append(n.as_str());
        out.append("\n");
        assert(out@ =~= before + harness_line(*h));
        i += 1;
        assert(out@ =~= head + lines(rows@, line, i as nat));
    }
}

fn write_tasks(out: &mut String, rows: &Vec<TaskView>)
    ensures
        final(out)@ == old(out)@ + lines(rows@, |t: TaskView| task_line(t), rows@.len()),
{
    let ghost head = out@;
    let ghost line = |t: TaskView| task_line(t);
    let mut i: usize = 0;
    assert(out@ =~= head + lines(rows@, line, 0));
    while i < rows.len()
        invariant
            i <= rows.len(),
            line == (|t: TaskView| task_line(t)),
            out@ == head + lines(rows@, line, i as nat),
        decreases rows.len() - i,
    {
        let t = &rows[i];
        let ghost before = out@;
        let id = uuid_text(t.id.0);
        out.append(id.as_str());
        out.append(" · ");
        out.append(t.worker_id.as_str());
        out.append(" · ");
        out.append(state_text(t.state));
        out.append(" · revision ");
        let n = decimal_text(t.result_revision as u64);
        out.append(n.as_str());
        out.append("\n");
        assert(out@ =~= before + task_line(*t));
        i += 1;
        assert(out@ =~= head + lines(rows@, line, i as nat));
    }
}

fn write_messages(out: &mut String, rows: &Vec<InboxMessageView>)
    ensures
        final(out)@ == old(out)@ + lines(rows@, |x: InboxMessageView| message_line(x), rows@.len()),
{
    let ghost head = out@;
    let ghost line = |x: InboxMessageView| message_line(x);
    let mut i: usize = 0;
    assert(out@ =~= head + lines(rows@, line, 0));
    while i < rows.len()
        invariant
            i <= rows.len(),
            line == (|x: InboxMessageView| message_line(x)),
            out@ == head + lines(rows@, line, i as nat),
        decreases rows.len() - i,
    {
        let x = &rows[i];
        let ghost before = out@;
        let id = uuid_text(x.id.0);
        out.append(id.as_str());
        out.append(" · ");
        out.append(x.sender_id.as_str());
        out.append(" · ");
        out.append(x.kind.as_str());
        out.append(" · ");
        match &x.delivery_state {
            Some(state) => {
                out.append(state.as_str());
            },
            None => {
                out.append("pending");
            },
        }
        out.append("\n");
        assert(out@ =~= before + message_line(*x));
        i += 1;
        assert(out@ =~= head + lines(rows@, line, i as nat));
    }
}

fn write_holds(out: &mut String, rows: &Vec<HoldView>)
    ensures
        final(out)@ == old(out)@ + lines(rows@, |h: HoldView| hold_line(h), rows@.len()),
{
    let ghost head = out@;
    let ghost line = |h: HoldView| hold_line(h);
    let mut i: usize = 0;
    assert(out@ =~= head + lines(rows@, line, 0));
    while i < rows.len()
        invariant
            i <= rows.len(),
            line == (|h: HoldView| hold_line(h)),
            out@ == head + lines(rows@, line, i as nat),
        decreases rows.len() - i,
    {
        let h = &rows[i];
        let ghost before = out@;
        let id = uuid_text(h.task_id.0);
        out.append(id.as_str());
        out.append(" · ");
        out.append(h.repository_key.as_str());
        out.append(" · ");
        out.append(h.reason.as_str());
        out.append("\n");
        assert(out@ =~= before + hold_line(*h));
        i += 1;
        assert(out@ =~= head + lines(rows@, line, i as nat));
    }
}

/// Writes the popup.
pub fn render_popup(
    status: &Vec<HarnessStatusView>,
    tasks: &Vec<TaskView>,
    inbox: &Vec<InboxMessageView>,
    holds: &Vec<HoldView>,
) -> (r: String)
    ensures
        r@ == popup_text(status@, tasks@, inbox@, holds@),
{
    let mut out = "Harness Network\n\n".to_owned();
    write_harnesses(&mut out, status);
    out.append("\nTasks\n");
    write_tasks(&mut out, tasks);
    out.append("\nInbox\n");
    write_messages(&mut out, inbox);
    if holds.len() > 0 {
        out.append("\nWorktree Holds\n");
        write_holds(&mut out, holds);
    }
    assert(out@ =~= popup_text(status@, tasks@, inbox@, holds@));
    out
}

/// Keys that the popup knows.
#[derive(Debug, Clone, Copy, PartialEq, Eq, Structural)]
pub enum PopupKey {
    Close,
    Up,
    Down,
    Approve,
    Cancel,
    ClearHold,
    StopWorker,
    Other,
}

/// What a key of the popup asks for; Tasks by their number in the list.
#[derive(Debug, Clone, Copy, PartialEq, Eq, Structural)]
pub enum PopupAction {
    Nothing,
    Close,
    Approve(usize),
    Cancel(usize),
    ClearHold(usize),
    StopWorker,
}

/// A selection among so many Tasks.
pub open spec fn clamped(selected: usize, count: usize) -> usize {
    if count == 0 {
        0
    } else if selected >= count {
        (count - 1) as usize
    } else {
        selected
    }
}

/// What a key does: the selection after it, and what it asks for.
pub open spec fn popup_step(selected: usize, count: usize, key: PopupKey) -> (usize, PopupAction) {
    let here = clamped(selected, count);
    match key {
        PopupKey::Close => (here, PopupAction::Close),
        PopupKey::Up => (if here == 0 {
            0
        } else {
            (here - 1) as usize
        }, PopupAction::Nothing),
        PopupKey::Down => (clamped(if here < usize::MAX {
            (here + 1) as usize
        } else {
            here
        }, count), PopupAction::Nothing),
        PopupKey::Approve => (here, if here < count {
            PopupAction::Approve(here)
        } else {
            PopupAction::Nothing
        }),
        PopupKey::Cancel => (here, if here < count {
            PopupAction::Cancel(here)
        } else {
            PopupAction::Nothing
        }),
        PopupKey::ClearHold => (here, if here < count {
            PopupAction::ClearHold(here)
        } else {
            PopupAction::Nothing
        }),
        PopupKey::StopWorker => (here, PopupAction::StopWorker),
        PopupKey::Other => (here, PopupAction::Nothing),
    }
}

/// Keeps a selection among so many Tasks.
pub fn clamp_selection(selected: usize, count: usize) -> (r: usize)
    ensures
        r == clamped(selected, count),
{
    if count == 0 {
        0
    } else if selected >= count {
        count - 1
    } else {
        selected
    }
}

/// Takes in a key.
pub fn on_popup_key(selected: usize, count: usize, key: PopupKey) -> (r: (usize, PopupAction))
    ensures
        r == popup_step(selected, count, key),
{
    let here = clamp_selection(selected, count);
    match key {
        PopupKey::Close => (here, PopupAction::Close),
        PopupKey::Up => (if here == 0 {
            0
        } else {
            here - 1
        }, PopupAction::Nothing),
        PopupKey::Down => {
            let next = if here < usize::MAX {
                here + 1
            } else {
                here
            };
            (clamp_selection(next, count), PopupAction::Nothing)
        },
        PopupKey::Approve => (here, if here < count {
            PopupAction::Approve(here)
        } else {
            PopupAction::Nothing
        }),
        PopupKey::Cancel => (here, if here < count {
            PopupAction::Cancel(here)
        } else {
            PopupAction::Nothing
        }),
        PopupKey::ClearHold => (here, if here < count {
            PopupAction::ClearHold(here)
        } else {
            PopupAction::Nothing
        }),
        PopupKey::StopWorker => (here, PopupAction::StopWorker),
        PopupKey::Other => (here, PopupAction::Nothing),
    }
}

/// No key leads the selection out of the list, and no action names a Task that is not there.
pub proof fn popup_keys_stay_in_the_list(selected: usize, count: usize, key: PopupKey)
    ensures
        ({
            let (next, action) = popup_step(selected, count, key);
            &&& count > 0 ==> next < count
            &&& match action {
                PopupAction::Approve(i) => i < count,
                PopupAction::Cancel(i) => i < count,
                PopupAction::ClearHold(i) => i < count,
                _ => true,
            }
        }),
{
}

} // verus!

//! The loop of a Worker Host as a machine: an event comes in, the Host's memory and its place in
//! the round change, and one action comes out. Whoever runs the loop performs the action and
//! hands back what became of it.
use vstd::prelude::*;

use crate::adapter::{NativeDeliveryKind, NativeTurnStatus};
use crate::contract::TaskState;
use crate::host::{
    cancel_step, event_step, overdue_at, tries_again, turn_report, CancelStep, DeliveryResult,
    EventKind, EventStep, TurnReport, WorkerHost, PRE_WRITE_RETRIES,
};
use crate::identity::{MessageId, TaskId};

verus! {

/// Why a Host gives up.
#[derive(Debug, Clone, Copy, PartialEq, Eq, Structural)]
pub enum HostFailure {
    /// The provider could not be started.
    StartFailed,
    /// A request of the Host failed.
    Refused,
    /// A delivery failed and nothing was written.
    DeliveryFailed,
    /// Whether a delivery was accepted cannot be known.
    DeliveryAmbiguous,
    /// A cooperative cancellation took too long.
    CancellationTimedOut,
    /// The provider failed or exited.
    ProviderGone,
    /// The events of the provider ended.
    StreamClosed,
}

/// What a Host waits for.
#[derive(Debug, Clone, Copy, PartialEq, Eq, Structural)]
#[allow(inconsistent_fields)]
pub enum HostPhase {
    /// Its beginning.
    Idle,
    /// The start of its provider.
    Starting,
    /// The record that it is ready.
    Readying,
    /// A tick, an event of the provider, or a signal.
    Waiting,
    /// The answer to its claim.
    Claiming,
    /// Its inbox.
    Reading,
    /// The way in which a Message can be delivered now.
    Resolving { message: MessageId, task: Option<TaskId> },
    /// The end of a delivery's attempt number `tried`.
    Delivering {
        message: MessageId,
        task: Option<TaskId>,
        kind: NativeDeliveryKind,
        tried: usize,
    },
    /// The record of an acceptance.
    Accepting { message: MessageId, task: Option<TaskId> },
    /// The read mark of an accepted Message.
    Marking { task: Option<TaskId> },
    /// The record of a delivery in doubt.
    Doubting,
    /// The Tasks.
    Listing,
    /// The interruption of a native turn.
    Interrupting { now: u64 },
    /// The record of a cancellation that met no native turn.
    Confirming { now: u64 },
    /// The record of a cancellation that took too long.
    Expiring,
    /// Its Session.
    Asking,
    /// The Tasks, before it stops.
    Counting,
    /// The end of its provider, before it reports that it stopped.
    Leaving,
    /// The record that it stopped.
    Parting,
    /// The end of its provider after a signal.
    Departing,
    /// The record of an event of the provider.
    Recording { step: EventStep },
    /// The Task of a turn that ended.
    Fetching { task: TaskId },
    /// The record of a turn that ended.
    Settling,
    /// The end of its provider, before it fails.
    Falling { why: HostFailure },
    /// Nothing any more.
    Ended,
}

/// What a Host is told.
#[derive(Debug, Clone, Copy, PartialEq, Eq)]
#[allow(inconsistent_fields)]
pub enum HostEvent {
    /// The Host begins.
    Begun,
    /// The poll interval passed.
    Tick,
    /// The last action succeeded and has nothing more to say.
    Answered,
    /// The last action failed.
    Refused,
    /// The first Message of the inbox, with its Task.
    Inbox { first: Option<(MessageId, Option<TaskId>)> },
    /// How the Message can be delivered, if it can be now.
    Resolved { kind: Option<NativeDeliveryKind> },
    /// How the delivery went.
    Delivered { result: DeliveryResult },
    /// The first Task of the Worker that is being cancelled, and whether any is active.
    Listed { cancelling: Option<TaskId>, active: bool, now: u64 },
    /// Whether the Session is to stop.
    Session { stopping: bool },
    /// An event of the provider.
    Provider { kind: EventKind },
    /// The Task of the turn that ended, and how the turn ended.
    Shown { state: TaskState, status: NativeTurnStatus },
    /// The events of the provider ended.
    Closed,
    /// The operating system asks for an end.
    Signal,
}

/// What a Host does next.
#[derive(Debug, Clone, Copy, PartialEq, Eq, Structural)]
pub enum HostAction {
    Wait,
    StartProvider,
    RecordHostReady,
    ClaimNextTask,
    ReadInbox,
    ResolveDelivery { message: MessageId },
    Deliver { message: MessageId, kind: NativeDeliveryKind },
    AcceptDelivery { message: MessageId },
    MarkInboxRead { message: MessageId },
    MarkDeliveryUnknown { message: MessageId },
    ListTasks,
    CancelActive { task: TaskId },
    RecordCancellationCompleted { task: TaskId, succeeded: bool },
    AskSession,
    StopProvider,
    RecordHostStopped,
    RecordHostEvent { sequence: u64 },
    GetTask { task: TaskId },
    RecordTurnCompleted { task: TaskId, succeeded: bool },
    Finish,
    Fail { why: HostFailure },
}

/// After a look at cancellations: one that took too long ends the Host.
pub open spec fn after_cancellations(host: WorkerHost, now: u64) -> (HostPhase, HostAction) {
    match overdue_at(host, now) {
        Some(task) => (
            HostPhase::Expiring,
            HostAction::RecordCancellationCompleted { task, succeeded: false },
        ),
        None => (HostPhase::Asking, HostAction::AskSession),
    }
}

/// What follows a delivery: another try where nothing was written, a record of its acceptance or
/// of the doubt about it, or the end.
pub open spec fn after_delivery(
    message: MessageId,
    task: Option<TaskId>,
    kind: NativeDeliveryKind,
    tried: usize,
    result: DeliveryResult,
) -> (HostPhase, HostAction) {
    match result {
        DeliveryResult::Accepted => (
            HostPhase::Accepting { message, task },
            HostAction::AcceptDelivery { message },
        ),
        DeliveryResult::Ambiguous => (
            HostPhase::Doubting,
            HostAction::MarkDeliveryUnknown { message },
        ),
        DeliveryResult::Unwritten => if tried < PRE_WRITE_RETRIES {
            (
                HostPhase::Delivering { message, task, kind, tried: (tried + 1) as usize },
                HostAction::Deliver { message, kind },
            )
        } else {
            (HostPhase::Ended, HostAction::Fail { why: HostFailure::DeliveryFailed })
        },
    }
}

/// A Host whose Message was accepted works on the Task of the Message.
pub open spec fn working_on(host: WorkerHost, task: Option<TaskId>) -> WorkerHost {
    if task is Some {
        WorkerHost { current: task, ..host }
    } else {
        host
    }
}

/// The phases in which a failed request ends the Host at once.
pub open spec fn fails_when_refused(phase: HostPhase) -> bool {
    !(phase is Idle || phase is Starting || phase is Waiting || phase is Falling || phase is Ended)
}

/// One step of a Host. An event that its phase does not wait for changes nothing.
pub open spec fn host_step(host: WorkerHost, phase: HostPhase, event: HostEvent) -> (
    WorkerHost,
    HostPhase,
    HostAction,
) {
    match (phase, event) {
        (HostPhase::Idle, HostEvent::Begun) => (
            host,
            HostPhase::Starting,
            HostAction::StartProvider,
        ),
        (HostPhase::Starting, HostEvent::Answered) => (
            host,
            HostPhase::Readying,
            HostAction::RecordHostReady,
        ),
        (HostPhase::Starting, HostEvent::Refused) => (
            host,
            HostPhase::Ended,
            HostAction::Fail { why: HostFailure::StartFailed },
        ),
        (HostPhase::Readying, HostEvent::Answered) => (host, HostPhase::Waiting, HostAction::Wait),
        (HostPhase::Waiting, HostEvent::Tick) => (
            host,
            HostPhase::Claiming,
            HostAction::ClaimNextTask,
        ),
        (HostPhase::Waiting, HostEvent::Provider { kind }) => {
            let (step, next) = event_step(host, kind);
            (
                next,
                HostPhase::Recording { step },
                HostAction::RecordHostEvent { sequence: next.sequence },
            )
        },
        (HostPhase::Waiting, HostEvent::Closed) => (
            host,
            HostPhase::Ended,
            HostAction::Fail { why: HostFailure::StreamClosed },
        ),
        (HostPhase::Waiting, HostEvent::Signal) => (
            host,
            HostPhase::Departing,
            HostAction::StopProvider,
        ),
        (HostPhase::Claiming, HostEvent::Answered) => (
            host,
            HostPhase::Reading,
            HostAction::ReadInbox,
        ),
        (HostPhase::Reading, HostEvent::Inbox { first }) => match first {
            None => (host, HostPhase::Listing, HostAction::ListTasks),
            Some((message, task)) => (
                host,
                HostPhase::Resolving { message, task },
                HostAction::ResolveDelivery { message },
            ),
        },
        (HostPhase::Resolving { message, task }, HostEvent::Resolved { kind }) => match kind {
            None => (host, HostPhase::Waiting, HostAction::Wait),
            Some(kind) => (
                host,
                HostPhase::Delivering { message, task, kind, tried: 1 },
                HostAction::Deliver { message, kind },
            ),
        },
        (
            HostPhase::Delivering { message, task, kind, tried },
            HostEvent::Delivered { result },
        ) => {
            let (next, action) = after_delivery(message, task, kind, tried, result);
            (host, next, action)
        },
        (HostPhase::Accepting { message, task }, HostEvent::Answered) => (
            host,
            HostPhase::Marking { task },
            HostAction::MarkInboxRead { message },
        ),
        (HostPhase::Marking { task }, HostEvent::Answered) => (
            working_on(host, task),
            HostPhase::Listing,
            HostAction::ListTasks,
        ),
        (HostPhase::Doubting, HostEvent::Answered) => (
            host,
            HostPhase::Falling { why: HostFailure::DeliveryAmbiguous },
            HostAction::StopProvider,
        ),
        (HostPhase::Listing, HostEvent::Listed { cancelling, active: _, now }) => {
            let (step, next) = cancel_step(host, cancelling, now);
            match step {
                CancelStep::Nothing => {
                    let (then, action) = after_cancellations(next, now);
                    (next, then, action)
                },
                CancelStep::Interrupt { task } => (
                    next,
                    HostPhase::Interrupting { now },
                    HostAction::CancelActive { task },
                ),
                CancelStep::Confirm { task } => (
                    next,
                    HostPhase::Confirming { now },
                    HostAction::RecordCancellationCompleted { task, succeeded: true },
                ),
            }
        },
        (HostPhase::Interrupting { now }, HostEvent::Answered) => {
            let (then, action) = after_cancellations(host, now);
            (host, then, action)
        },
        (HostPhase::Confirming { now }, HostEvent::Answered) => {
            let (then, action) = after_cancellations(host, now);
            (host, then, action)
        },
        (HostPhase::Expiring, HostEvent::Answered) => (
            host,
            HostPhase::Falling { why: HostFailure::CancellationTimedOut },
            HostAction::StopProvider,
        ),
        (HostPhase::Asking, HostEvent::Session { stopping }) => if stopping {
            (host, HostPhase::Counting, HostAction::ListTasks)
        } else {
            (host, HostPhase::Waiting, HostAction::Wait)
        },
        (HostPhase::Counting, HostEvent::Listed { cancelling: _, active, now: _ }) => if active {
            (host, HostPhase::Waiting, HostAction::Wait)
        } else {
            (host, HostPhase::Leaving, HostAction::StopProvider)
        },
        (HostPhase::Leaving, HostEvent::Answered) => (
            host,
            HostPhase::Parting,
            HostAction::RecordHostStopped,
        ),
        (HostPhase::Parting, HostEvent::Answered) => (host, HostPhase::Ended, HostAction::Finish),
        (HostPhase::Departing, HostEvent::Answered) => (
            host,
            HostPhase::Ended,
            HostAction::Finish,
        ),
        (HostPhase::Recording { step }, HostEvent::Answered) => match step {
            EventStep::Continue => (host, HostPhase::Waiting, HostAction::Wait),
            EventStep::Settle { task } => (
                host,
                HostPhase::Fetching { task },
                HostAction::GetTask { task },
            ),
            EventStep::Stop => (
                host,
                HostPhase::Ended,
                HostAction::Fail { why: HostFailure::ProviderGone },
            ),
        },
        (HostPhase::Fetching { task }, HostEvent::Shown { state, status }) => {
            let (report, next) = turn_report(host, task, state, status);
            (
                next,
                HostPhase::Settling,
                match report {
                    TurnReport::Cancellation { task, succeeded } =>
                        HostAction::RecordCancellationCompleted { task, succeeded },
                    TurnReport::Turn { task, succeeded } => HostAction::RecordTurnCompleted {
                        task,
                        succeeded,
                    },
                },
            )
        },
        (HostPhase::Settling, HostEvent::Answered) => (host, HostPhase::Waiting, HostAction::Wait),
        (HostPhase::Falling { why }, HostEvent::Answered) => (
            host,
            HostPhase::Ended,
            HostAction::Fail { why },
        ),
        (HostPhase::Falling { why }, HostEvent::Refused) => (
            host,
            HostPhase::Ended,
            HostAction::Fail { why },
        ),
        (_, HostEvent::Refused) => if fails_when_refused(phase) {
            (host, HostPhase::Ended, HostAction::Fail { why: HostFailure::Refused })
        } else {
            (host, phase, HostAction::Wait)
        },
        _ => (host, phase, HostAction::Wait),
    }
}

/// A Worker Host: what it remembers, and what it waits for.
#[derive(Debug, Clone, Copy, PartialEq, Eq)]
pub struct HostLoop {
    pub host: WorkerHost,
    pub phase: HostPhase,
}

impl HostLoop {
    /// A Host that continues an event sequence and has not begun.
    pub fn new(sequence: u64) -> (r: HostLoop)
        ensures
            r.host == (WorkerHost { current: None, cancelling: None, sequence }),
            r.phase == HostPhase::Idle,
    {
        HostLoop { host: WorkerHost::new(sequence), phase: HostPhase::Idle }
    }

    fn look_at_overdue(&mut self, now: u64) -> (r: HostAction)
        ensures
            final(self).host == old(self).host,
            (final(self).phase, r) == after_cancellations(old(self).host, now),
    {
        match self.host.overdue(now) {
            Some(task) => {
                self.phase = HostPhase::Expiring;
                HostAction::RecordCancellationCompleted { task, succeeded: false }
            },
            None => {
                self.phase = HostPhase::Asking;
                HostAction::AskSession
            },
        }
    }

    fn go(&mut self, phase: HostPhase, action: HostAction) -> (r: HostAction)
        ensures
            *final(self) == (HostLoop { phase, ..*old(self) }),
            r == action,
    {
        self.phase = phase;
        action
    }

    /// Takes in what was written of a delivery.
    fn on_delivered(
        &mut self,
        message: MessageId,
        task: Option<TaskId>,
        kind: NativeDeliveryKind,
        tried: usize,
        result: DeliveryResult,
    ) -> (r: HostAction)
        ensures
            final(self).host == old(self).host,
            (final(self).phase, r) == after_delivery(message, task, kind, tried, result),
    {
        if tries_again(tried, result) {
            return self.go(
                HostPhase::Delivering { message, task, kind, tried: tried + 1 },
                HostAction::Deliver { message, kind },
            );
        }
        match result {
            DeliveryResult::Accepted => self.go(
                HostPhase::Accepting { message, task },
                HostAction::AcceptDelivery { message },
            ),
            DeliveryResult::Ambiguous => self.go(
                HostPhase::Doubting,
                HostAction::MarkDeliveryUnknown { message },
            ),
            DeliveryResult::Unwritten => self.go(
                HostPhase::Ended,
                HostAction::Fail { why: HostFailure::DeliveryFailed },
            ),
        }
    }

    /// Takes in an event and says what to do.
    pub fn step(&mut self, event: HostEvent) -> (r: HostAction)
        ensures
            (final(self).host, final(self).phase, r) == host_step(
                old(self).host,
                old(self).phase,
                event,
            ),
    {
        match (self.phase, event) {
            (HostPhase::Idle, HostEvent::Begun) => self.go(
                HostPhase::Starting,
                HostAction::StartProvider,
            ),
            (HostPhase::Starting, HostEvent::Answered) => self.go(
                HostPhase::Readying,
                HostAction::RecordHostReady,
            ),
            (HostPhase::Starting, HostEvent::Refused) => self.go(
                HostPhase::Ended,
                HostAction::Fail { why: HostFailure::StartFailed },
            ),
            (HostPhase::Readying, HostEvent::Answered) => self.go(
                HostPhase::Waiting,
                HostAction::Wait,
            ),
            (HostPhase::Waiting, HostEvent::Tick) => self.go(
                HostPhase::Claiming,
                HostAction::ClaimNextTask,
            ),
            (HostPhase::Waiting, HostEvent::Provider { kind }) => {
                let step = self.host.on_event(kind);
                let sequence = self.host.sequence;
                self.go(
                    HostPhase::Recording { step },
                    HostAction::RecordHostEvent { sequence },
                )
            },
            (HostPhase::Waiting, HostEvent::Closed) => self.go(
                HostPhase::Ended,
                HostAction::Fail { why: HostFailure::StreamClosed },
            ),
            (HostPhase::Waiting, HostEvent::Signal) => self.go(
                HostPhase::Departing,
                HostAction::StopProvider,
            ),
            (HostPhase::Claiming, HostEvent::Answered) => self.go(
                HostPhase::Reading,
                HostAction::ReadInbox,
            ),
            (HostPhase::Reading, HostEvent::Inbox { first }) => match first {
                None => self.go(HostPhase::Listing, HostAction::ListTasks),
                Some((message, task)) => self.go(
                    HostPhase::Resolving { message, task },
                    HostAction::ResolveDelivery { message },
                ),
            },
            (HostPhase::Resolving { message, task }, HostEvent::Resolved { kind }) => match kind {
                None => self.go(HostPhase::Waiting, HostAction::Wait),
                Some(kind) => self.go(
                    HostPhase::Delivering { message, task, kind, tried: 1 },
                    HostAction::Deliver { message, kind },
                ),
            },
            (
                HostPhase::Delivering { message, task, kind, tried },
                HostEvent::Delivered { result },
            ) => self.on_delivered(message, task, kind, tried, result),
            (HostPhase::Accepting { message, task }, HostEvent::Answered) => self.go(
                HostPhase::Marking { task },
                HostAction::MarkInboxRead { message },
            ),
            (HostPhase::Marking { task }, HostEvent::Answered) => {
                if task.is_some() {
                    self.host.current = task;
                }
                self.go(HostPhase::Listing, HostAction::ListTasks)
            },
            (HostPhase::Doubting, HostEvent::Answered) => self.go(
                HostPhase::Falling { why: HostFailure::DeliveryAmbiguous },
                HostAction::StopProvider,
            ),
            (HostPhase::Listing, HostEvent::Listed { cancelling, active: _, now }) => {
                match self.host.on_tasks(cancelling, now) {
                    CancelStep::Nothing => self.look_at_overdue(now),
                    CancelStep::Interrupt { task } => self.go(
                        HostPhase::Interrupting { now },
                        HostAction::CancelActive { task },
                    ),
                    CancelStep::Confirm { task } => self.go(
                        HostPhase::Confirming { now },
                        HostAction::RecordCancellationCompleted { task, succeeded: true },
                    ),
                }
            },
            (HostPhase::Interrupting { now }, HostEvent::Answered) => self.look_at_overdue(now),
            (HostPhase::Confirming { now }, HostEvent::Answered) => self.look_at_overdue(now),
            (HostPhase::Expiring, HostEvent::Answered) => self.go(
                HostPhase::Falling { why: HostFailure::CancellationTimedOut },
                HostAction::StopProvider,
            ),
            (HostPhase::Asking, HostEvent::Session { stopping }) => if stopping {
                self.go(HostPhase::Counting, HostAction::ListTasks)
            } else {
                self.go(HostPhase::Waiting, HostAction::Wait)
            },
            (HostPhase::Counting, HostEvent::Listed { cancelling: _, active, now: _ }) => if active {
                self.go(HostPhase::Waiting, HostAction::Wait)
            } else {
                self.go(HostPhase::Leaving, HostAction::StopProvider)
            },
            (HostPhase::Leaving, HostEvent::Answered) => self.go(
                HostPhase::Parting,
                HostAction::RecordHostStopped,
            ),
            (HostPhase::Parting, HostEvent::Answered) => self.go(
                HostPhase::Ended,
                HostAction::Finish,
            ),
            (HostPhase::Departing, HostEvent::Answered) => self.go(
                HostPhase::Ended,
                HostAction::Finish,
            ),
            (HostPhase::Recording { step }, HostEvent::Answered) => match step {
                EventStep::Continue => self.go(HostPhase::Waiting, HostAction::Wait),
                EventStep::Settle { task } => self.go(
                    HostPhase::Fetching { task },
                    HostAction::GetTask { task },
                ),
                EventStep::Stop => self.go(
                    HostPhase::Ended,
                    HostAction::Fail { why: HostFailure::ProviderGone },
                ),
            },
            (HostPhase::Fetching { task }, HostEvent::Shown { state, status }) => {
                let action = match self.host.on_turn_end(task, state, status) {
                    TurnReport::Cancellation { task, succeeded } =>
                        HostAction::RecordCancellationCompleted { task, succeeded },
                    TurnReport::Turn { task, succeeded } => HostAction::RecordTurnCompleted {
                        task,
                        succeeded,
                    },
                };
                self.go(HostPhase::Settling, action)
            },
            (HostPhase::Settling, HostEvent::Answered) => self.go(
                HostPhase::Waiting,
                HostAction::Wait,
            ),
            (HostPhase::Falling { why }, HostEvent::Answered) => self.go(
                HostPhase::Ended,
                HostAction::Fail { why },
            ),
            (HostPhase::Falling { why }, HostEvent::Refused) => self.go(
                HostPhase::Ended,
                HostAction::Fail { why },
            ),
            (HostPhase::Idle, HostEvent::Refused) => HostAction::Wait,
            (HostPhase::Waiting, HostEvent::Refused) => HostAction::Wait,
            (HostPhase::Ended, HostEvent::Refused) => HostAction::Wait,
            (_, HostEvent::Refused) => self.go(
                HostPhase::Ended,
                HostAction::Fail { why: HostFailure::Refused },
            ),
            _ => HostAction::Wait,
        }
    }
}

// ---------------------------------------------------------------------------------------------
// Laws
// ---------------------------------------------------------------------------------------------

/// Readiness is reported only out of a successful start of the provider, nothing is claimed before
/// the report was taken, and a Host whose provider does not start ends without a report.
pub proof fn ready_hosts_have_started(host: WorkerHost, phase: HostPhase, event: HostEvent)
    ensures
        ({
            let (_, next, action) = host_step(host, phase, event);
            &&& action == HostAction::RecordHostReady ==> phase == HostPhase::Starting && event
                == HostEvent::Answered
            &&& next == HostPhase::Starting && phase != next ==> action
                == HostAction::StartProvider && phase == HostPhase::Idle
            &&& next == HostPhase::Readying && phase != next ==> action
                == HostAction::RecordHostReady
            &&& phase == HostPhase::Idle && next != phase ==> next == HostPhase::Starting
            &&& phase == HostPhase::Starting && next != phase ==> next == HostPhase::Readying
                || next == HostPhase::Ended
            &&& phase == HostPhase::Readying && next != phase ==> next == HostPhase::Ended || next
                == HostPhase::Waiting && event == HostEvent::Answered
            &&& phase == HostPhase::Starting && event == HostEvent::Refused ==> action == (
            HostAction::Fail { why: HostFailure::StartFailed })
        }),
{
}

/// A Host after the first `n` of the events that it is told.
pub open spec fn run(host: WorkerHost, phase: HostPhase, told: Seq<HostEvent>, n: nat) -> (
    WorkerHost,
    HostPhase,
)
    decreases n,
{
    if n == 0 {
        (host, phase)
    } else {
        let (before, place) = run(host, phase, told, (n - 1) as nat);
        let (after, next, _) = host_step(before, place, told[n - 1]);
        (after, next)
    }
}

/// The numbers under which a Host records events of its provider while it is told so much.
pub open spec fn recorded(host: WorkerHost, phase: HostPhase, told: Seq<HostEvent>, n: nat) -> Seq<
    u64,
>
    decreases n,
{
    if n == 0 {
        Seq::empty()
    } else {
        let (before, place) = run(host, phase, told, (n - 1) as nat);
        let earlier = recorded(host, phase, told, (n - 1) as nat);
        match host_step(before, place, told[n - 1]).2 {
            HostAction::RecordHostEvent { sequence } => earlier.push(sequence),
            _ => earlier,
        }
    }
}

/// Whatever a Host is told, it records events under consecutive numbers, from the one after the
/// last that was recorded before it began.
pub proof fn recorded_numbers_have_no_gap(
    host: WorkerHost,
    phase: HostPhase,
    told: Seq<HostEvent>,
    n: nat,
)
    requires
        n <= told.len(),
        host.sequence + n <= u64::MAX,
    ensures
        forall|k: int|
            0 <= k < recorded(host, phase, told, n).len() ==> #[trigger] recorded(
                host,
                phase,
                told,
                n,
            )[k] == host.sequence + 1 + k,
        run(host, phase, told, n).0.sequence == host.sequence + recorded(
            host,
            phase,
            told,
            n,
        ).len(),
        recorded(host, phase, told, n).len() <= n,
    decreases n,
{
    if n > 0 {
        recorded_numbers_have_no_gap(host, phase, told, (n - 1) as nat);
        let (before, place) = run(host, phase, told, (n - 1) as nat);
        events_are_numbered(before, place, told[n - 1]);
    }
}

/// An event comes before the report that it causes: a turn or a cancellation that ended is reported
/// only after the event of its end was recorded.
pub proof fn reports_follow_their_events(host: WorkerHost, phase: HostPhase, event: HostEvent)
    ensures
        ({
            let (_, next, action) = host_step(host, phase, event);
            &&& next is Settling && phase != next ==> phase is Fetching
            &&& next is Fetching && phase != next ==> event == HostEvent::Answered && phase
                is Recording
            &&& next is Recording && phase != next ==> action is RecordHostEvent && phase
                == HostPhase::Waiting && event is Provider
            &&& action is RecordTurnCompleted ==> next is Settling && phase is Fetching
        }),
{
}

/// A Message is marked as read only once its acceptance was recorded, and an acceptance is
/// recorded only of a delivery that the provider accepted.
pub proof fn read_messages_were_accepted(host: WorkerHost, phase: HostPhase, event: HostEvent)
    ensures
        forall|message: MessageId|
            host_step(host, phase, event).2 == (HostAction::MarkInboxRead { message }) ==> event
                == HostEvent::Answered && exists|task: Option<TaskId>|
                phase == (HostPhase::Accepting { message, task }),
        forall|message: MessageId, task: Option<TaskId>|
            host_step(host, phase, event).1 == (HostPhase::Accepting { message, task }) && phase
                != host_step(host, phase, event).1 ==> event == (HostEvent::Delivered {
                result: DeliveryResult::Accepted,
            }) && exists|kind: NativeDeliveryKind, tried: usize|
                phase == (HostPhase::Delivering { message, task, kind, tried }),
{
    assert forall|message: MessageId|
        host_step(host, phase, event).2 == (HostAction::MarkInboxRead { message }) implies event
        == HostEvent::Answered && exists|task: Option<TaskId>|
        phase == (HostPhase::Accepting { message, task }) by {
        if let HostPhase::Accepting { message: m, task } = phase {
            assert(phase == (HostPhase::Accepting { message, task }));
        }
    }
    assert forall|message: MessageId, task: Option<TaskId>|
        host_step(host, phase, event).1 == (HostPhase::Accepting { message, task }) && phase
            != host_step(host, phase, event).1 implies event == (HostEvent::Delivered {
        result: DeliveryResult::Accepted,
    }) && exists|kind: NativeDeliveryKind, tried: usize|
        phase == (HostPhase::Delivering { message, task, kind, tried }) by {
        if let HostPhase::Delivering { message: m, task: t, kind, tried } = phase {
            assert(phase == (HostPhase::Delivering { message, task, kind, tried }));
        }
    }
}

/// A delivery in doubt is recorded as such before the provider is stopped, and then the Host
/// fails, whether the provider could be stopped or not.
pub proof fn doubt_is_recorded_first(
    host: WorkerHost,
    message: MessageId,
    task: Option<TaskId>,
    kind: NativeDeliveryKind,
    tried: usize,
    stopped: bool,
)
    ensures
        ({
            let why = HostFailure::DeliveryAmbiguous;
            let lost = HostEvent::Delivered { result: DeliveryResult::Ambiguous };
            let last = if stopped {
                HostEvent::Answered
            } else {
                HostEvent::Refused
            };
            let a = host_step(host, HostPhase::Delivering { message, task, kind, tried }, lost);
            let b = host_step(a.0, a.1, HostEvent::Answered);
            let c = host_step(b.0, b.1, last);
            &&& a.2 == HostAction::MarkDeliveryUnknown { message }
            &&& b.2 == HostAction::StopProvider
            &&& c == (host, HostPhase::Ended, HostAction::Fail { why })
        }),
{
}

/// A delivery of which nothing was written is tried again, so many times in all.
pub proof fn retries_are_bounded(
    message: MessageId,
    task: Option<TaskId>,
    kind: NativeDeliveryKind,
    tried: usize,
    result: DeliveryResult,
)
    requires
        tried <= PRE_WRITE_RETRIES,
    ensures
        match after_delivery(message, task, kind, tried, result).0 {
            HostPhase::Delivering { message: _, task: _, kind: _, tried: next } => next == tried + 1
                && next <= PRE_WRITE_RETRIES && result == DeliveryResult::Unwritten,
            _ => true,
        },
{
}

/// A Host reports that it stopped only after it saw that nothing occupies its Worker.
pub proof fn busy_hosts_do_not_leave(host: WorkerHost, phase: HostPhase, event: HostEvent)
    ensures
        host_step(host, phase, event).1 is Leaving && !(phase is Leaving) ==> phase
            == HostPhase::Counting && event is Listed && !event->active,
        host_step(host, phase, event).2 == HostAction::RecordHostStopped ==> phase
            == HostPhase::Leaving,
{
}

/// A Host that ended stays so and does nothing.
pub proof fn ended_hosts_stay_ended(host: WorkerHost, event: HostEvent)
    ensures
        host_step(host, HostPhase::Ended, event) == (host, HostPhase::Ended, HostAction::Wait),
{
}

/// Events of the provider are recorded under numbers that go up by one, and nothing else changes
/// the number.
pub proof fn events_are_numbered(host: WorkerHost, phase: HostPhase, event: HostEvent)
    ensures
        match host_step(host, phase, event) {
            (next, _, HostAction::RecordHostEvent { sequence }) => next.sequence == sequence && (
            host.sequence < u64::MAX ==> sequence == host.sequence + 1),
            (next, _, _) => next.sequence == host.sequence,
        },
{
}

} // verus!

//! What Hosts and workspaces do from one end of their work to the other.
use vstd::prelude::*;

use crate::activation::{ActivationRuntime, DesiredActivation};
use crate::adapter::{AdapterLifecycle, NativeDeliveryKind, NativeTurnStatus};
use crate::contract::{HarnessKind, TaskState};
use crate::host::{CANCELLATION_LIMIT, DeliveryResult, EventKind, PRE_WRITE_RETRIES, WorkerHost};
use crate::identity::{MessageId, SupervisorEventId, TaskId};
use crate::supervisor_loop::{supervisor_step, SupervisorAction, SupervisorNews, SupervisorPhase};
use crate::worker_loop::{host_step, HostAction, HostEvent, HostFailure, HostPhase};
use crate::worker_start::{start_step, StartAction, StartEvent, StartFailure, StartPhase};
use crate::workspace_run::{workspace_step, WorkspaceAction, WorkspaceEvent, WorkspacePhase};

verus! {

// ---------------------------------------------------------------------------------------------
// Worker Hosts
// ---------------------------------------------------------------------------------------------

/// A Host with its phase after it was told something, and what it did.
pub struct Told {
    pub host: WorkerHost,
    pub phase: HostPhase,
    pub action: HostAction,
}

/// What a Host does when it is told one thing more.
pub open spec fn tell(t: Told, event: HostEvent) -> Told {
    let (host, phase, action) = host_step(t.host, t.phase, event);
    Told { host, phase, action }
}

/// A Host that waits.
pub open spec fn waits(host: WorkerHost) -> Told {
    Told { host, phase: HostPhase::Waiting, action: HostAction::Wait }
}

/// In every round a Host asks for work, then reads its inbox; a Message that the provider takes is
/// accepted before it is marked as read, and the Host then works on its Task.
pub proof fn accepted_messages_are_worked_on(
    host: WorkerHost,
    message: MessageId,
    task: TaskId,
    kind: NativeDeliveryKind,
)
    ensures
        ({
            let a = tell(waits(host), HostEvent::Tick);
            let b = tell(a, HostEvent::Answered);
            let c = tell(b, HostEvent::Inbox { first: Some((message, Some(task))) });
            let d = tell(c, HostEvent::Resolved { kind: Some(kind) });
            let e = tell(d, HostEvent::Delivered { result: DeliveryResult::Accepted });
            let f = tell(e, HostEvent::Answered);
            let g = tell(f, HostEvent::Answered);
            &&& a.action == HostAction::ClaimNextTask
            &&& b.action == HostAction::ReadInbox
            &&& c.action == (HostAction::ResolveDelivery { message })
            &&& d.action == (HostAction::Deliver { message, kind })
            &&& e.action == (HostAction::AcceptDelivery { message })
            &&& f.action == (HostAction::MarkInboxRead { message })
            &&& f.host == host
            &&& g.action == HostAction::ListTasks
            &&& g.host.current == Some(task)
            &&& g.host.sequence == host.sequence
            &&& tell(b, HostEvent::Inbox { first: None }).action == HostAction::ListTasks
            &&& tell(c, HostEvent::Resolved { kind: None }) == waits(host)
        }),
{
}

/// A delivery in doubt is recorded, then the provider is stopped and the Host fails; one of which
/// nothing was written is tried again in the same way, as often as it may be, and then the Host
/// fails.
pub proof fn doubtful_deliveries_end_the_host(
    host: WorkerHost,
    message: MessageId,
    task: Option<TaskId>,
    kind: NativeDeliveryKind,
    tried: usize,
)
    ensures
        ({
            let d = Told {
                host,
                phase: HostPhase::Delivering { message, task, kind, tried },
                action: HostAction::Deliver { message, kind },
            };
            let e = tell(d, HostEvent::Delivered { result: DeliveryResult::Ambiguous });
            let f = tell(e, HostEvent::Answered);
            let g = tell(f, HostEvent::Answered);
            let again = tell(d, HostEvent::Delivered { result: DeliveryResult::Unwritten });
            &&& e.action == (HostAction::MarkDeliveryUnknown { message })
            &&& f.action == HostAction::StopProvider
            &&& g.action == (HostAction::Fail { why: HostFailure::DeliveryAmbiguous })
            &&& g.phase == HostPhase::Ended
            &&& tried < PRE_WRITE_RETRIES ==> again.action == (HostAction::Deliver {
                message,
                kind,
            }) && again.phase == (HostPhase::Delivering {
                message,
                task,
                kind,
                tried: (tried + 1) as usize,
            })
            &&& tried >= PRE_WRITE_RETRIES ==> again.action == (HostAction::Fail {
                why: HostFailure::DeliveryFailed,
            }) && again.phase == HostPhase::Ended
        }),
{
}

/// The end of a turn is recorded under the next number, then its Task is looked up and the turn is
/// reported: as a cancellation where the Task is being cancelled, and else as completed or not.
pub proof fn turns_are_recorded_and_reported(
    host: WorkerHost,
    task: TaskId,
    state: TaskState,
    status: NativeTurnStatus,
)
    requires
        host.current == Some(task),
        host.sequence < u64::MAX,
    ensures
        ({
            let a = tell(waits(host), HostEvent::Provider { kind: EventKind::TurnCompleted });
            let b = tell(a, HostEvent::Answered);
            let c = tell(b, HostEvent::Shown { state, status });
            let d = tell(c, HostEvent::Answered);
            &&& a.action == (HostAction::RecordHostEvent { sequence: (host.sequence + 1) as u64 })
            &&& b.action == (HostAction::GetTask { task })
            &&& state == TaskState::Cancelling ==> c.action == (
            HostAction::RecordCancellationCompleted {
                task,
                succeeded: status == NativeTurnStatus::Completed || status
                    == NativeTurnStatus::Interrupted,
            })
            &&& state != TaskState::Cancelling ==> c.action == (HostAction::RecordTurnCompleted {
                task,
                succeeded: status == NativeTurnStatus::Completed,
            })
            &&& d.phase == HostPhase::Waiting
            &&& d.host.current is None
        }),
{
}

/// A Host that is asked to stop waits for its work to end, then stops its provider, reports it and
/// finishes; a signal only stops the provider; and a provider that is gone, or can no longer be
/// read, fails the Host.
pub proof fn hosts_end_in_order(host: WorkerHost, cancelling: Option<TaskId>, now: u64)
    ensures
        ({
            let a = Told { host, phase: HostPhase::Asking, action: HostAction::AskSession };
            let b = tell(a, HostEvent::Session { stopping: true });
            let busy = tell(b, HostEvent::Listed { cancelling, active: true, now });
            let c = tell(b, HostEvent::Listed { cancelling, active: false, now });
            let d = tell(c, HostEvent::Answered);
            let e = tell(d, HostEvent::Answered);
            let s = tell(waits(host), HostEvent::Signal);
            let gone = tell(waits(host), HostEvent::Provider { kind: EventKind::Gone });
            &&& tell(a, HostEvent::Session { stopping: false }) == waits(host)
            &&& b.action == HostAction::ListTasks
            &&& busy == waits(host)
            &&& c.action == HostAction::StopProvider
            &&& d.action == HostAction::RecordHostStopped
            &&& e.action == HostAction::Finish
            &&& e.phase == HostPhase::Ended
            &&& s.action == HostAction::StopProvider
            &&& tell(s, HostEvent::Answered).action == HostAction::Finish
            &&& gone.action is RecordHostEvent
            &&& tell(gone, HostEvent::Answered).action == (HostAction::Fail {
                why: HostFailure::ProviderGone,
            })
            &&& tell(waits(host), HostEvent::Closed).action == (HostAction::Fail {
                why: HostFailure::StreamClosed,
            })
        }),
{
}

/// A Task that is to be cancelled is interrupted where the Host works on it, and reported as
/// cancelled where it does not; a cancellation that took too long is reported as failed, and ends
/// the Host.
pub proof fn cancellations_are_carried_out(host: WorkerHost, task: TaskId, now: u64)
    requires
        host.cancelling is None,
        now + CANCELLATION_LIMIT <= u64::MAX,
    ensures
        ({
            let l = Told { host, phase: HostPhase::Listing, action: HostAction::ListTasks };
            let a = tell(l, HostEvent::Listed { cancelling: Some(task), active: true, now });
            let late = tell(
                Told { host: a.host, ..l },
                HostEvent::Listed {
                    cancelling: Some(task),
                    active: true,
                    now: (now + CANCELLATION_LIMIT) as u64,
                },
            );
            let end = tell(tell(late, HostEvent::Answered), HostEvent::Answered);
            &&& host.current == Some(task) ==> a.action == (HostAction::CancelActive { task })
            &&& host.current != Some(task) ==> a.action == (
            HostAction::RecordCancellationCompleted { task, succeeded: true })
            &&& tell(a, HostEvent::Answered).action == HostAction::AskSession
            &&& host.current == Some(task) ==> late.action == (
            HostAction::RecordCancellationCompleted { task, succeeded: false })
            &&& host.current == Some(task) ==> end.action == (HostAction::Fail {
                why: HostFailure::CancellationTimedOut,
            })
            &&& tell(
                l,
                HostEvent::Listed { cancelling: None, active: false, now },
            ).action == HostAction::AskSession
        }),
{
}

// ---------------------------------------------------------------------------------------------
// Supervisor terminals
// ---------------------------------------------------------------------------------------------

/// Where a Supervisor terminal stands, and what it did.
pub open spec fn hear(
    kind: HarnessKind,
    t: (SupervisorPhase, SupervisorAction),
    news: SupervisorNews,
) -> (SupervisorPhase, SupervisorAction) {
    supervisor_step(kind, t.0, news)
}

/// At every tick a Supervisor terminal looks at its provider; where that is idle, it claims an
/// event, completes its summary and injects it, steering where the event says so, and records what
/// came of it: accepted, in doubt, or put back.
pub proof fn events_are_injected_and_recorded(
    kind: HarnessKind,
    event: SupervisorEventId,
    steer: bool,
)
    ensures
        ({
            let w = (SupervisorPhase::Waiting, SupervisorAction::Wait);
            let a = hear(kind, w, SupervisorNews::Tick);
            let b = hear(
                kind,
                a,
                SupervisorNews::Snapshot { lifecycle: AdapterLifecycle::Idle },
            );
            let c = hear(kind, b, SupervisorNews::Claimed { event: Some((event, steer)) });
            let d = hear(kind, c, SupervisorNews::Answered);
            let taken = hear(
                kind,
                d,
                SupervisorNews::Injected { result: DeliveryResult::Accepted },
            );
            let doubt = hear(
                kind,
                d,
                SupervisorNews::Injected { result: DeliveryResult::Ambiguous },
            );
            let back = hear(
                kind,
                d,
                SupervisorNews::Injected { result: DeliveryResult::Unwritten },
            );
            &&& a.1 == SupervisorAction::Snapshot
            &&& b.1 == SupervisorAction::ClaimEvent
            &&& hear(kind, b, SupervisorNews::Claimed { event: None }) == w
            &&& c.1 == (SupervisorAction::Summarize { event })
            &&& d.1 == (SupervisorAction::Inject { event, steer })
            &&& taken.1 == (SupervisorAction::Accept { event })
            &&& doubt.1 == (SupervisorAction::MarkUnknown { event })
            &&& back.1 == (SupervisorAction::Release { event })
            &&& hear(kind, taken, SupervisorNews::Answered) == w
            &&& hear(
                kind,
                a,
                SupervisorNews::Snapshot { lifecycle: AdapterLifecycle::Failed },
            ) == w
        }),
{
}

/// What the user types is sent as a prompt, unless it is blank; the end of input stops the
/// provider, and then the terminal reports that it is gone and finishes, or fails where the input
/// or the provider failed.
pub proof fn terminals_end_in_order(kind: HarnessKind)
    ensures
        ({
            let w = (SupervisorPhase::Waiting, SupervisorAction::Wait);
            let a = hear(kind, w, SupervisorNews::InputClosed);
            let b = hear(kind, a, SupervisorNews::Answered);
            let c = hear(kind, b, SupervisorNews::Answered);
            let x = hear(kind, w, SupervisorNews::Gone);
            let y = hear(kind, x, SupervisorNews::Answered);
            let z = hear(kind, y, SupervisorNews::Answered);
            &&& hear(kind, w, SupervisorNews::Line { blank: true }) == w
            &&& hear(kind, w, SupervisorNews::Line { blank: false }).1
                == SupervisorAction::SendPrompt
            &&& a.1 == SupervisorAction::StopProvider
            &&& b.1 == SupervisorAction::RecordDisconnected
            &&& c == (SupervisorPhase::Ended, SupervisorAction::Finish)
            &&& x == hear(kind, w, SupervisorNews::InputFailed)
            &&& x.1 == SupervisorAction::StopProvider
            &&& y.1 == SupervisorAction::RecordDisconnected
            &&& z == (SupervisorPhase::Ended, SupervisorAction::Fail)
        }),
{
}

// ---------------------------------------------------------------------------------------------
// Starts
// ---------------------------------------------------------------------------------------------

/// The start of a Worker that the Coordinator accepts opens its pane and is reported; one that it
/// refuses fails, and one whose pane does not open is taken back and fails.
pub proof fn accepted_starts_open_a_pane(attempt: u32)
    ensures
        ({
            let asking = StartPhase::Asking { attempt };
            let a = start_step(StartPhase::Idle, StartEvent::Begun);
            let b = start_step(asking, StartEvent::Answered { accepted: true });
            let c = start_step(b.0, StartEvent::Done);
            let x = start_step(b.0, StartEvent::Failed);
            &&& a.1 == StartAction::Ask
            &&& b.1 == StartAction::OpenPane
            &&& c == (StartPhase::Ended, StartAction::Report)
            &&& start_step(asking, StartEvent::Answered { accepted: false }) == (
                StartPhase::Ended,
                StartAction::Fail { why: StartFailure::Refused },
            )
            &&& x.1 == StartAction::Abort
            &&& start_step(x.0, StartEvent::Done) == (
                StartPhase::Ended,
                StartAction::Fail { why: StartFailure::Unopened },
            )
            &&& start_step(x.0, StartEvent::Done) == start_step(x.0, StartEvent::Failed)
        }),
{
}

/// A workspace that is switched on without anything running registers its Supervisor, starts the
/// Coordinator, opens the Supervisor, starts every selected Worker in turn, waits for them, and
/// only then is recorded as online.
pub proof fn workspaces_come_up_in_order(workers: usize, runtime: ActivationRuntime, k: usize)
    requires
        runtime != ActivationRuntime::Online,
        k < workers,
    ensures
        ({
            let on = DesiredActivation::On;
            let go = |p: WorkspacePhase, e: WorkspaceEvent| workspace_step(on, workers, p, e);
            let a = go(WorkspacePhase::Idle, WorkspaceEvent::Begun { runtime });
            let b = go(a.0, WorkspaceEvent::Found { there: false });
            let c = go(b.0, WorkspaceEvent::Done);
            let d = go(c.0, WorkspaceEvent::Found { there: false });
            let e = go(d.0, WorkspaceEvent::Done);
            let f = go(e.0, WorkspaceEvent::Found { there: false });
            let g = go(f.0, WorkspaceEvent::Done);
            let n = go(WorkspacePhase::StartingWorker { index: k }, WorkspaceEvent::Done);
            let h = go(WorkspacePhase::Awaiting, WorkspaceEvent::Done);
            let i = go(h.0, WorkspaceEvent::Done);
            &&& a.1 == WorkspaceAction::SeekCapability
            &&& b.1 == WorkspaceAction::RegisterSupervisor
            &&& c.1 == WorkspaceAction::ProbeDaemon
            &&& d.1 == WorkspaceAction::StartDaemon
            &&& e.1 == WorkspaceAction::ProbeSupervisor
            &&& f.1 == WorkspaceAction::OpenSupervisor
            &&& g.1 == (WorkspaceAction::StartWorker { index: 0 })
            &&& k + 1 < workers ==> n.1 == (WorkspaceAction::StartWorker {
                index: (k + 1) as usize,
            })
            &&& k + 1 == workers ==> n == (WorkspacePhase::Awaiting, WorkspaceAction::AwaitWorkers)
            &&& h.1 == WorkspaceAction::RecordOnline
            &&& i == (WorkspacePhase::Ended, WorkspaceAction::Report)
        }),
{
}

/// A workspace that is switched off stops every running Worker in turn, waits for them, deactivates
/// the Coordinator, stops it, and removes the capability; without a capability it only stops the
/// Coordinator.
pub proof fn workspaces_go_down_in_order(
    workers: usize,
    runtime: ActivationRuntime,
    count: usize,
    k: usize,
)
    requires
        k < count,
    ensures
        ({
            let off = DesiredActivation::Off;
            let go = |p: WorkspacePhase, e: WorkspaceEvent| workspace_step(off, workers, p, e);
            let a = go(WorkspacePhase::Idle, WorkspaceEvent::Begun { runtime });
            let b = go(a.0, WorkspaceEvent::Found { there: true });
            let c = go(b.0, WorkspaceEvent::Running { count });
            let n = go(WorkspacePhase::StoppingWorker { index: k, count }, WorkspaceEvent::Done);
            let d = go(WorkspacePhase::Awaiting, WorkspaceEvent::Done);
            let e = go(d.0, WorkspaceEvent::Done);
            let f = go(e.0, WorkspaceEvent::Done);
            let g = go(f.0, WorkspaceEvent::Done);
            let bare = go(a.0, WorkspaceEvent::Found { there: false });
            &&& a.1 == WorkspaceAction::SeekCapability
            &&& b.1 == WorkspaceAction::ListWorkers
            &&& c.1 == (WorkspaceAction::StopWorker { index: 0 })
            &&& k + 1 < count ==> n.1 == (WorkspaceAction::StopWorker { index: (k + 1) as usize })
            &&& k + 1 == count ==> n == (WorkspacePhase::Awaiting, WorkspaceAction::AwaitWorkers)
            &&& d.1 == WorkspaceAction::Deactivate
            &&& e.1 == WorkspaceAction::StopDaemon
            &&& f.1 == WorkspaceAction::RemoveCapability
            &&& g == (WorkspacePhase::Ended, WorkspaceAction::Report)
            &&& bare.1 == WorkspaceAction::StopDaemon
            &&& go(bare.0, WorkspaceEvent::Done) == (
                WorkspacePhase::Ended,
                WorkspaceAction::Report,
            )
        }),
{
}

} // verus!

use herdr_coordinator::activation::{ActivationRuntime, DesiredActivation};
use herdr_coordinator::adapter::{AdapterLifecycle, NativeDeliveryKind, NativeTurnStatus};
use herdr_coordinator::contract::{HarnessKind, TaskState};
use herdr_coordinator::host::{DeliveryResult, EventKind, CANCELLATION_LIMIT};
use herdr_coordinator::identity::{MessageId, SupervisorEventId, TaskId};
use herdr_coordinator::supervisor_loop::{SupervisorAction, SupervisorLoop, SupervisorNews};
use herdr_coordinator::worker_start::{StartAction, StartEvent, StartFailure, WorkerLaunch};
use herdr_coordinator::workspace_run::{WorkspaceAction, WorkspaceEvent, WorkspaceRun};
use herdr_coordinator::worker_loop::{HostAction, HostEvent, HostFailure, HostLoop, HostPhase};

const MESSAGE: MessageId = MessageId(1);
const TASK: TaskId = TaskId(9);
const KIND: NativeDeliveryKind = NativeDeliveryKind::StartTurn;

fn listed(cancelling: Option<TaskId>, active: bool, now: u64) -> HostEvent {
    HostEvent::Listed { cancelling, active, now }
}

/// A Host that started its provider, reported that it is ready, and waits.
fn ready(sequence: u64) -> HostLoop {
    let mut host = HostLoop::new(sequence);
    assert_eq!(host.step(HostEvent::Tick), HostAction::Wait);
    assert_eq!(host.step(HostEvent::Begun), HostAction::StartProvider);
    assert_eq!(host.step(HostEvent::Answered), HostAction::RecordHostReady);
    assert_eq!(host.step(HostEvent::Answered), HostAction::Wait);
    assert_eq!(host.phase, HostPhase::Waiting);
    host
}

#[test]
fn hosts_are_ready_once_their_provider_started() {
    ready(0);
    let mut host = HostLoop::new(0);
    host.step(HostEvent::Begun);
    assert_eq!(host.step(HostEvent::Refused), HostAction::Fail { why: HostFailure::StartFailed });
    assert_eq!(host.phase, HostPhase::Ended);
    let mut host = HostLoop::new(0);
    host.step(HostEvent::Begun);
    host.step(HostEvent::Answered);
    assert_eq!(host.step(HostEvent::Refused), HostAction::Fail { why: HostFailure::Refused });
}

/// A Host that asked its provider to deliver the first Message.
fn delivering() -> HostLoop {
    let mut host = ready(5);
    assert_eq!(host.step(HostEvent::Tick), HostAction::ClaimNextTask);
    assert_eq!(host.step(HostEvent::Answered), HostAction::ReadInbox);
    assert_eq!(
        host.step(HostEvent::Inbox { first: Some((MESSAGE, Some(TASK))) }),
        HostAction::ResolveDelivery { message: MESSAGE }
    );
    assert_eq!(
        host.step(HostEvent::Resolved { kind: Some(KIND) }),
        HostAction::Deliver { message: MESSAGE, kind: KIND }
    );
    host
}

/// A Host that works on its Task and waits.
fn working() -> HostLoop {
    let mut host = delivering();
    assert_eq!(
        host.step(HostEvent::Delivered { result: DeliveryResult::Accepted }),
        HostAction::AcceptDelivery { message: MESSAGE }
    );
    assert_eq!(host.step(HostEvent::Answered), HostAction::MarkInboxRead { message: MESSAGE });
    assert_eq!(host.step(HostEvent::Answered), HostAction::ListTasks);
    assert_eq!(host.step(listed(None, true, 0)), HostAction::AskSession);
    assert_eq!(host.step(HostEvent::Session { stopping: false }), HostAction::Wait);
    assert_eq!(host.phase, HostPhase::Waiting);
    host
}

#[test]
fn a_turn_is_reported_when_it_ends() {
    let mut host = working();
    assert_eq!(
        host.step(HostEvent::Provider { kind: EventKind::TurnCompleted }),
        HostAction::RecordHostEvent { sequence: 6 }
    );
    assert_eq!(host.step(HostEvent::Answered), HostAction::GetTask { task: TASK });
    assert_eq!(
        host.step(HostEvent::Shown {
            state: TaskState::Working,
            status: NativeTurnStatus::Completed,
        }),
        HostAction::RecordTurnCompleted { task: TASK, succeeded: true }
    );
    assert_eq!(host.step(HostEvent::Answered), HostAction::Wait);
    assert_eq!(
        host.step(HostEvent::Provider { kind: EventKind::TurnCompleted }),
        HostAction::RecordHostEvent { sequence: 7 }
    );
    assert_eq!(host.step(HostEvent::Answered), HostAction::Wait);
}

#[test]
fn a_message_that_cannot_be_delivered_ends_the_round() {
    let mut host = ready(0);
    host.step(HostEvent::Tick);
    host.step(HostEvent::Answered);
    host.step(HostEvent::Inbox { first: Some((MESSAGE, None)) });
    assert_eq!(host.step(HostEvent::Resolved { kind: None }), HostAction::Wait);
    assert_eq!(host.phase, HostPhase::Waiting);
}

#[test]
fn deliveries_are_tried_three_times() {
    let mut host = delivering();
    let unwritten = HostEvent::Delivered { result: DeliveryResult::Unwritten };
    assert_eq!(host.step(unwritten), HostAction::Deliver { message: MESSAGE, kind: KIND });
    assert_eq!(host.step(unwritten), HostAction::Deliver { message: MESSAGE, kind: KIND });
    assert_eq!(host.step(unwritten), HostAction::Fail { why: HostFailure::DeliveryFailed });
    assert_eq!(host.phase, HostPhase::Ended);
    assert_eq!(host.step(HostEvent::Tick), HostAction::Wait);
}

#[test]
fn a_delivery_in_doubt_ends_the_host() {
    let mut host = delivering();
    assert_eq!(
        host.step(HostEvent::Delivered { result: DeliveryResult::Ambiguous }),
        HostAction::MarkDeliveryUnknown { message: MESSAGE }
    );
    assert_eq!(host.step(HostEvent::Answered), HostAction::StopProvider);
    assert_eq!(
        host.step(HostEvent::Refused),
        HostAction::Fail { why: HostFailure::DeliveryAmbiguous }
    );
}

#[test]
fn cancellations_are_asked_for_once_and_expire() {
    let mut host = working();
    let round = |host: &mut HostLoop, now: u64| {
        host.step(HostEvent::Tick);
        host.step(HostEvent::Answered);
        host.step(HostEvent::Inbox { first: None });
        host.step(listed(Some(TASK), true, now))
    };
    assert_eq!(round(&mut host, 100), HostAction::CancelActive { task: TASK });
    assert_eq!(host.step(HostEvent::Answered), HostAction::AskSession);
    assert_eq!(host.step(HostEvent::Session { stopping: false }), HostAction::Wait);
    assert_eq!(round(&mut host, 100 + CANCELLATION_LIMIT - 1), HostAction::AskSession);
    assert_eq!(host.step(HostEvent::Session { stopping: false }), HostAction::Wait);
    assert_eq!(
        round(&mut host, 100 + CANCELLATION_LIMIT),
        HostAction::RecordCancellationCompleted { task: TASK, succeeded: false }
    );
    assert_eq!(host.step(HostEvent::Answered), HostAction::StopProvider);
    assert_eq!(
        host.step(HostEvent::Answered),
        HostAction::Fail { why: HostFailure::CancellationTimedOut }
    );
}

#[test]
fn tasks_without_a_turn_are_cancelled_at_once() {
    let mut host = ready(0);
    host.step(HostEvent::Tick);
    host.step(HostEvent::Answered);
    assert_eq!(host.step(HostEvent::Inbox { first: None }), HostAction::ListTasks);
    assert_eq!(
        host.step(listed(Some(TASK), true, 0)),
        HostAction::RecordCancellationCompleted { task: TASK, succeeded: true }
    );
    assert_eq!(host.step(HostEvent::Answered), HostAction::AskSession);
}

#[test]
fn hosts_stop_when_nothing_is_left() {
    let mut host = ready(0);
    host.step(HostEvent::Tick);
    host.step(HostEvent::Answered);
    host.step(HostEvent::Inbox { first: None });
    host.step(listed(None, true, 0));
    assert_eq!(host.step(HostEvent::Session { stopping: true }), HostAction::ListTasks);
    assert_eq!(host.step(listed(None, true, 0)), HostAction::Wait);
    host.step(HostEvent::Tick);
    host.step(HostEvent::Answered);
    host.step(HostEvent::Inbox { first: None });
    host.step(listed(None, false, 0));
    host.step(HostEvent::Session { stopping: true });
    assert_eq!(host.step(listed(None, false, 0)), HostAction::StopProvider);
    assert_eq!(host.step(HostEvent::Answered), HostAction::RecordHostStopped);
    assert_eq!(host.step(HostEvent::Answered), HostAction::Finish);
}

#[test]
fn hosts_fail_with_their_requests_and_providers() {
    let mut host = ready(0);
    host.step(HostEvent::Tick);
    assert_eq!(host.step(HostEvent::Refused), HostAction::Fail { why: HostFailure::Refused });
    let mut host = ready(0);
    assert_eq!(
        host.step(HostEvent::Closed),
        HostAction::Fail { why: HostFailure::StreamClosed }
    );
    let mut host = ready(0);
    host.step(HostEvent::Provider { kind: EventKind::Gone });
    assert_eq!(
        host.step(HostEvent::Answered),
        HostAction::Fail { why: HostFailure::ProviderGone }
    );
    let mut host = ready(0);
    assert_eq!(host.step(HostEvent::Signal), HostAction::StopProvider);
    assert_eq!(host.step(HostEvent::Answered), HostAction::Finish);
}

/// A terminal that waits.
fn terminal_of(kind: HarnessKind) -> SupervisorLoop {
    let mut terminal = SupervisorLoop::new(kind);
    assert_eq!(terminal.step(SupervisorNews::Tick), SupervisorAction::Wait);
    assert_eq!(terminal.step(SupervisorNews::Begun), SupervisorAction::BindProvider);
    assert_eq!(terminal.step(SupervisorNews::Answered), SupervisorAction::RecordBinding);
    assert_eq!(terminal.step(SupervisorNews::Answered), SupervisorAction::Snapshot);
    assert_eq!(
        terminal.step(SupervisorNews::Snapshot { lifecycle: AdapterLifecycle::Starting }),
        SupervisorAction::RecordSnapshot
    );
    assert_eq!(terminal.step(SupervisorNews::Answered), SupervisorAction::Wait);
    terminal
}

#[test]
fn supervisors_that_do_not_start_end_at_once() {
    let mut terminal = SupervisorLoop::new(HarnessKind::Omp);
    terminal.step(SupervisorNews::Begun);
    assert_eq!(terminal.step(SupervisorNews::Refused), SupervisorAction::Fail);
    assert_eq!(terminal.step(SupervisorNews::Begun), SupervisorAction::Wait);
}

#[test]
fn supervisors_settle_what_they_claim() {
    let event = SupervisorEventId(4);
    for (result, record) in [
        (DeliveryResult::Accepted, SupervisorAction::Accept { event }),
        (DeliveryResult::Ambiguous, SupervisorAction::MarkUnknown { event }),
        (DeliveryResult::Unwritten, SupervisorAction::Release { event }),
    ] {
        let mut terminal = terminal_of(HarnessKind::Omp);
        assert_eq!(terminal.step(SupervisorNews::Tick), SupervisorAction::Snapshot);
        assert_eq!(
            terminal.step(SupervisorNews::Snapshot { lifecycle: AdapterLifecycle::Working }),
            SupervisorAction::ClaimEvent
        );
        assert_eq!(
            terminal.step(SupervisorNews::Claimed { event: Some((event, true)) }),
            SupervisorAction::Summarize { event }
        );
        assert_eq!(
            terminal.step(SupervisorNews::Answered),
            SupervisorAction::Inject { event, steer: true }
        );
        assert_eq!(terminal.step(SupervisorNews::Injected { result }), record);
        assert_eq!(terminal.step(SupervisorNews::Answered), SupervisorAction::Wait);
    }
}

#[test]
fn supervisors_end_with_a_record() {
    let mut terminal = terminal_of(HarnessKind::Codex);
    assert_eq!(terminal.step(SupervisorNews::Line { blank: true }), SupervisorAction::Wait);
    assert_eq!(terminal.step(SupervisorNews::Line { blank: false }), SupervisorAction::SendPrompt);
    assert_eq!(terminal.step(SupervisorNews::Refused), SupervisorAction::Wait);
    assert_eq!(terminal.step(SupervisorNews::Tick), SupervisorAction::Snapshot);
    assert_eq!(
        terminal.step(SupervisorNews::Snapshot { lifecycle: AdapterLifecycle::Working }),
        SupervisorAction::Wait
    );
    assert_eq!(terminal.step(SupervisorNews::Shown), SupervisorAction::Show);
    assert_eq!(terminal.step(SupervisorNews::InputClosed), SupervisorAction::StopProvider);
    assert_eq!(terminal.step(SupervisorNews::Refused), SupervisorAction::RecordDisconnected);
    assert_eq!(terminal.step(SupervisorNews::Answered), SupervisorAction::Finish);
    let mut terminal = terminal_of(HarnessKind::Codex);
    assert_eq!(terminal.step(SupervisorNews::Gone), SupervisorAction::StopProvider);
    assert_eq!(terminal.step(SupervisorNews::Answered), SupervisorAction::RecordDisconnected);
    assert_eq!(terminal.step(SupervisorNews::Answered), SupervisorAction::Fail);
}

#[test]
fn workspaces_are_switched_on_in_order() {
    let mut run = WorkspaceRun::new(DesiredActivation::On, 2);
    let steps = [
        (
            WorkspaceEvent::Begun { runtime: ActivationRuntime::Offline },
            WorkspaceAction::SeekCapability,
        ),
        (WorkspaceEvent::Found { there: false }, WorkspaceAction::RegisterSupervisor),
        (WorkspaceEvent::Done, WorkspaceAction::ProbeDaemon),
        (WorkspaceEvent::Found { there: false }, WorkspaceAction::StartDaemon),
        (WorkspaceEvent::Done, WorkspaceAction::ProbeSupervisor),
        (WorkspaceEvent::Found { there: false }, WorkspaceAction::OpenSupervisor),
        (WorkspaceEvent::Done, WorkspaceAction::StartWorker { index: 0 }),
        (WorkspaceEvent::Done, WorkspaceAction::StartWorker { index: 1 }),
        (WorkspaceEvent::Done, WorkspaceAction::AwaitWorkers),
        (WorkspaceEvent::Done, WorkspaceAction::RecordOnline),
        (WorkspaceEvent::Done, WorkspaceAction::Report),
        (WorkspaceEvent::Done, WorkspaceAction::Wait),
    ];
    for (event, action) in steps {
        assert_eq!(run.step(event), action);
    }
    let mut online = WorkspaceRun::new(DesiredActivation::On, 2);
    assert_eq!(
        online.step(WorkspaceEvent::Begun { runtime: ActivationRuntime::Online }),
        WorkspaceAction::Report
    );
}

#[test]
fn workspaces_are_switched_off_in_order() {
    let begun = WorkspaceEvent::Begun { runtime: ActivationRuntime::Online };
    let mut run = WorkspaceRun::new(DesiredActivation::Off, 2);
    let steps = [
        (begun, WorkspaceAction::SeekCapability),
        (WorkspaceEvent::Found { there: true }, WorkspaceAction::ListWorkers),
        (WorkspaceEvent::Running { count: 1 }, WorkspaceAction::StopWorker { index: 0 }),
        (WorkspaceEvent::Done, WorkspaceAction::AwaitWorkers),
        (WorkspaceEvent::Done, WorkspaceAction::Deactivate),
        (WorkspaceEvent::Done, WorkspaceAction::StopDaemon),
        (WorkspaceEvent::Done, WorkspaceAction::RemoveCapability),
        (WorkspaceEvent::Done, WorkspaceAction::Report),
    ];
    for (event, action) in steps {
        assert_eq!(run.step(event), action);
    }
    let mut unregistered = WorkspaceRun::new(DesiredActivation::Off, 0);
    assert_eq!(unregistered.step(begun), WorkspaceAction::SeekCapability);
    assert_eq!(
        unregistered.step(WorkspaceEvent::Found { there: false }),
        WorkspaceAction::StopDaemon
    );
    assert_eq!(unregistered.step(WorkspaceEvent::Done), WorkspaceAction::Report);
}

#[test]
fn failed_changes_need_recovery() {
    let mut run = WorkspaceRun::new(DesiredActivation::On, 1);
    run.step(WorkspaceEvent::Begun { runtime: ActivationRuntime::Offline });
    run.step(WorkspaceEvent::Found { there: true });
    assert_eq!(run.step(WorkspaceEvent::Failed), WorkspaceAction::RecordRecovery);
    assert_eq!(run.step(WorkspaceEvent::Done), WorkspaceAction::Fail);
    assert_eq!(run.step(WorkspaceEvent::Failed), WorkspaceAction::Wait);
}

#[test]
fn worker_starts_are_asked_for_three_times() {
    let mut start = WorkerLaunch::new();
    assert_eq!(start.step(StartEvent::Begun), StartAction::Ask);
    assert_eq!(start.step(StartEvent::Failed), StartAction::Ask);
    assert_eq!(start.step(StartEvent::Failed), StartAction::Ask);
    assert_eq!(
        start.step(StartEvent::Failed),
        StartAction::Fail { why: StartFailure::Unreachable }
    );
    assert_eq!(start.step(StartEvent::Begun), StartAction::Wait);
}

#[test]
fn unopened_workers_are_taken_back() {
    let mut start = WorkerLaunch::new();
    start.step(StartEvent::Begun);
    assert_eq!(start.step(StartEvent::Answered { accepted: true }), StartAction::OpenPane);
    assert_eq!(start.step(StartEvent::Failed), StartAction::Abort);
    assert_eq!(start.step(StartEvent::Failed), StartAction::Fail { why: StartFailure::Unopened });
    let mut start = WorkerLaunch::new();
    start.step(StartEvent::Begun);
    start.step(StartEvent::Answered { accepted: true });
    assert_eq!(start.step(StartEvent::Done), StartAction::Report);
    let mut start = WorkerLaunch::new();
    start.step(StartEvent::Begun);
    assert_eq!(
        start.step(StartEvent::Answered { accepted: false }),
        StartAction::Fail { why: StartFailure::Refused }
    );
}

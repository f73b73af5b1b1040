//! Switching a workspace on or off as a machine: an event comes in, the place in the order of
//! events changes, and one action comes out.
use vstd::prelude::*;

use crate::activation::{ActivationRuntime, DesiredActivation};
use crate::workspace::{step_after_set, WorkspaceStep};

verus! {

/// What a change of a workspace waits for.
#[derive(Debug, Clone, Copy, PartialEq, Eq, Structural)]
#[allow(inconsistent_fields)]
pub enum WorkspacePhase {
    /// The desired state that was set.
    Idle,
    /// A look for the Supervisor's capability.
    Seeking,
    /// The registration of the Supervisor.
    Registering,
    /// A look for a running Coordinator.
    ProbingDaemon,
    /// The start of the Coordinator.
    StartingDaemon,
    /// A look for a running Supervisor.
    ProbingSupervisor,
    /// The start of the Supervisor.
    OpeningSupervisor,
    /// The start of a selected Worker.
    StartingWorker { index: usize },
    /// The Workers that still run.
    Listing,
    /// The stop of one of the Workers that still run.
    StoppingWorker { index: usize, count: usize },
    /// The Workers' arrival, or their end.
    Awaiting,
    /// The record that the workspace is online.
    RecordingOnline,
    /// The deactivation of the Coordinator.
    Deactivating,
    /// The end of the Coordinator, with a capability to remove after it or not.
    StoppingDaemon { forget: bool },
    /// The removal of the capability.
    Forgetting,
    /// The record that the workspace needs recovery.
    RecordingRecovery,
    /// Nothing any more.
    Ended,
}

/// What a change of a workspace is told.
#[derive(Debug, Clone, Copy, PartialEq, Eq, Structural)]
pub enum WorkspaceEvent {
    /// The desired state was set, and the workspace was in this state before.
    Begun { runtime: ActivationRuntime },
    /// What was looked for is there or not.
    Found { there: bool },
    /// So many Workers still run.
    Running { count: usize },
    /// The last action succeeded.
    Done,
    /// The last action failed.
    Failed,
}

/// What a change of a workspace does next.
#[derive(Debug, Clone, Copy, PartialEq, Eq, Structural)]
pub enum WorkspaceAction {
    Wait,
    SeekCapability,
    RegisterSupervisor,
    ProbeDaemon,
    StartDaemon,
    ProbeSupervisor,
    OpenSupervisor,
    StartWorker { index: usize },
    ListWorkers,
    StopWorker { index: usize },
    AwaitWorkers,
    RecordOnline,
    Deactivate,
    StopDaemon,
    RemoveCapability,
    RecordRecovery,
    Report,
    Fail,
}

/// The selected Workers are started one after the other; then they are waited for.
pub open spec fn start_workers(index: usize, workers: usize) -> (WorkspacePhase, WorkspaceAction) {
    if index < workers {
        (WorkspacePhase::StartingWorker { index }, WorkspaceAction::StartWorker { index })
    } else {
        (WorkspacePhase::Awaiting, WorkspaceAction::AwaitWorkers)
    }
}

/// The running Workers are stopped one after the other; then they are waited for.
pub open spec fn stop_workers(index: usize, count: usize) -> (WorkspacePhase, WorkspaceAction) {
    if index < count {
        (WorkspacePhase::StoppingWorker { index, count }, WorkspaceAction::StopWorker { index })
    } else {
        (WorkspacePhase::Awaiting, WorkspaceAction::AwaitWorkers)
    }
}

/// The first step after a desired state was set.
pub open spec fn begin(desired: DesiredActivation, runtime: ActivationRuntime) -> (
    WorkspacePhase,
    WorkspaceAction,
) {
    if desired == DesiredActivation::On && runtime == ActivationRuntime::Online {
        (WorkspacePhase::Ended, WorkspaceAction::Report)
    } else {
        (WorkspacePhase::Seeking, WorkspaceAction::SeekCapability)
    }
}

/// The phases in which a failure makes the workspace need recovery.
pub open spec fn may_fail(phase: WorkspacePhase) -> bool {
    !(phase is Idle || phase is RecordingRecovery || phase is Ended)
}

/// One step towards a desired state, with so many selected Workers. An event that the phase does
/// not wait for changes nothing.
pub open spec fn workspace_step(
    desired: DesiredActivation,
    workers: usize,
    phase: WorkspacePhase,
    event: WorkspaceEvent,
) -> (WorkspacePhase, WorkspaceAction) {
    let on = desired == DesiredActivation::On;
    match (phase, event) {
        (WorkspacePhase::Idle, WorkspaceEvent::Begun { runtime }) => begin(desired, runtime),
        (WorkspacePhase::Seeking, WorkspaceEvent::Found { there }) => if on {
            if there {
                (WorkspacePhase::ProbingDaemon, WorkspaceAction::ProbeDaemon)
            } else {
                (WorkspacePhase::Registering, WorkspaceAction::RegisterSupervisor)
            }
        } else if there {
            (WorkspacePhase::Listing, WorkspaceAction::ListWorkers)
        } else {
            (WorkspacePhase::StoppingDaemon { forget: false }, WorkspaceAction::StopDaemon)
        },
        (WorkspacePhase::Registering, WorkspaceEvent::Done) => (
            WorkspacePhase::ProbingDaemon,
            WorkspaceAction::ProbeDaemon,
        ),
        (WorkspacePhase::ProbingDaemon, WorkspaceEvent::Found { there }) => if there {
            (WorkspacePhase::ProbingSupervisor, WorkspaceAction::ProbeSupervisor)
        } else {
            (WorkspacePhase::StartingDaemon, WorkspaceAction::StartDaemon)
        },
        (WorkspacePhase::StartingDaemon, WorkspaceEvent::Done) => (
            WorkspacePhase::ProbingSupervisor,
            WorkspaceAction::ProbeSupervisor,
        ),
        (WorkspacePhase::ProbingSupervisor, WorkspaceEvent::Found { there }) => if there {
            start_workers(0, workers)
        } else {
            (WorkspacePhase::OpeningSupervisor, WorkspaceAction::OpenSupervisor)
        },
        (WorkspacePhase::OpeningSupervisor, WorkspaceEvent::Done) => start_workers(0, workers),
        (WorkspacePhase::StartingWorker { index }, WorkspaceEvent::Done) => start_workers(
            if index < workers {
                (index + 1) as usize
            } else {
                workers
            },
            workers,
        ),
        (WorkspacePhase::Listing, WorkspaceEvent::Running { count }) => stop_workers(0, count),
        (WorkspacePhase::StoppingWorker { index, count }, WorkspaceEvent::Done) => stop_workers(
            if index < count {
                (index + 1) as usize
            } else {
                count
            },
            count,
        ),
        (WorkspacePhase::Awaiting, WorkspaceEvent::Done) => if on {
            (WorkspacePhase::RecordingOnline, WorkspaceAction::RecordOnline)
        } else {
            (WorkspacePhase::Deactivating, WorkspaceAction::Deactivate)
        },
        (WorkspacePhase::RecordingOnline, WorkspaceEvent::Done) => (
            WorkspacePhase::Ended,
            WorkspaceAction::Report,
        ),
        (WorkspacePhase::Deactivating, WorkspaceEvent::Done) => (
            WorkspacePhase::StoppingDaemon { forget: true },
            WorkspaceAction::StopDaemon,
        ),
        (WorkspacePhase::StoppingDaemon { forget }, WorkspaceEvent::Done) => if forget {
            (WorkspacePhase::Forgetting, WorkspaceAction::RemoveCapability)
        } else {
            (WorkspacePhase::Ended, WorkspaceAction::Report)
        },
        (WorkspacePhase::Forgetting, WorkspaceEvent::Done) => (
            WorkspacePhase::Ended,
            WorkspaceAction::Report,
        ),
        (WorkspacePhase::RecordingRecovery, WorkspaceEvent::Done) => (
            WorkspacePhase::Ended,
            WorkspaceAction::Fail,
        ),
        (WorkspacePhase::RecordingRecovery, WorkspaceEvent::Failed) => (
            WorkspacePhase::Ended,
            WorkspaceAction::Fail,
        ),
        (_, WorkspaceEvent::Failed) => if may_fail(phase) {
            (WorkspacePhase::RecordingRecovery, WorkspaceAction::RecordRecovery)
        } else {
            (phase, WorkspaceAction::Wait)
        },
        _ => (phase, WorkspaceAction::Wait),
    }
}

/// A change of a workspace under way.
#[derive(Debug, Clone, Copy, PartialEq, Eq)]
pub struct WorkspaceRun {
    pub desired: DesiredActivation,
    /// Number of selected Workers.
    pub workers: usize,
    pub phase: WorkspacePhase,
}

impl WorkspaceRun {
    /// A change that has not begun.
    pub fn new(desired: DesiredActivation, workers: usize) -> (r: WorkspaceRun)
        ensures
            r == (WorkspaceRun { desired, workers, phase: WorkspacePhase::Idle }),
    {
        WorkspaceRun { desired, workers, phase: WorkspacePhase::Idle }
    }

    fn go(&mut self, phase: WorkspacePhase, action: WorkspaceAction) -> (r: WorkspaceAction)
        ensures
            *final(self) == (WorkspaceRun { phase, ..*old(self) }),
            r == action,
    {
        self.phase = phase;
        action
    }

    fn start_worker(&mut self, index: usize) -> (r: WorkspaceAction)
        ensures
            final(self).desired == old(self).desired,
            final(self).workers == old(self).workers,
            (final(self).phase, r) == start_workers(index, old(self).workers),
    {
        if index < self.workers {
            self.go(
                WorkspacePhase::StartingWorker { index },
                WorkspaceAction::StartWorker { index },
            )
        } else {
            self.go(WorkspacePhase::Awaiting, WorkspaceAction::AwaitWorkers)
        }
    }

    fn stop_worker(&mut self, index: usize, count: usize) -> (r: WorkspaceAction)
        ensures
            final(self).desired == old(self).desired,
            final(self).workers == old(self).workers,
            (final(self).phase, r) == stop_workers(index, count),
    {
        if index < count {
            self.go(
                WorkspacePhase::StoppingWorker { index, count },
                WorkspaceAction::StopWorker { index },
            )
        } else {
            self.go(WorkspacePhase::Awaiting, WorkspaceAction::AwaitWorkers)
        }
    }

    fn found_capability(&mut self, there: bool) -> (r: WorkspaceAction)
        requires
            old(self).phase == WorkspacePhase::Seeking,
        ensures
            final(self).desired == old(self).desired,
            final(self).workers == old(self).workers,
            (final(self).phase, r) == workspace_step(
                old(self).desired,
                old(self).workers,
                old(self).phase,
                WorkspaceEvent::Found { there },
            ),
    {
        match (self.desired, there) {
            (DesiredActivation::On, true) => self.go(
                WorkspacePhase::ProbingDaemon,
                WorkspaceAction::ProbeDaemon,
            ),
            (DesiredActivation::On, false) => self.go(
                WorkspacePhase::Registering,
                WorkspaceAction::RegisterSupervisor,
            ),
            (DesiredActivation::Off, true) => self.go(
                WorkspacePhase::Listing,
                WorkspaceAction::ListWorkers,
            ),
            (DesiredActivation::Off, false) => self.go(
                WorkspacePhase::StoppingDaemon { forget: false },
                WorkspaceAction::StopDaemon,
            ),
        }
    }

    /// Takes in an event and says what to do.
    pub fn step(&mut self, event: WorkspaceEvent) -> (r: WorkspaceAction)
        ensures
            final(self).desired == old(self).desired,
            final(self).workers == old(self).workers,
            (final(self).phase, r) == workspace_step(
                old(self).desired,
                old(self).workers,
                old(self).phase,
                event,
            ),
    {
        match (self.phase, event) {
            (WorkspacePhase::Idle, WorkspaceEvent::Begun { runtime }) => match step_after_set(
                self.desired,
                runtime,
            ) {
                WorkspaceStep::Report => self.go(WorkspacePhase::Ended, WorkspaceAction::Report),
                _ => self.go(WorkspacePhase::Seeking, WorkspaceAction::SeekCapability),
            },
            (WorkspacePhase::Seeking, WorkspaceEvent::Found { there }) => self.found_capability(
                there,
            ),
            (WorkspacePhase::Registering, WorkspaceEvent::Done) => self.go(
                WorkspacePhase::ProbingDaemon,
                WorkspaceAction::ProbeDaemon,
            ),
            (WorkspacePhase::ProbingDaemon, WorkspaceEvent::Found { there }) => if there {
                self.go(WorkspacePhase::ProbingSupervisor, WorkspaceAction::ProbeSupervisor)
            } else {
                self.go(WorkspacePhase::StartingDaemon, WorkspaceAction::StartDaemon)
            },
            (WorkspacePhase::StartingDaemon, WorkspaceEvent::Done) => self.go(
                WorkspacePhase::ProbingSupervisor,
                WorkspaceAction::ProbeSupervisor,
            ),
            (WorkspacePhase::ProbingSupervisor, WorkspaceEvent::Found { there }) => if there {
                self.start_worker(0)
            } else {
                self.go(WorkspacePhase::OpeningSupervisor, WorkspaceAction::OpenSupervisor)
            },
            (WorkspacePhase::OpeningSupervisor, WorkspaceEvent::Done) => self.start_worker(0),
            (WorkspacePhase::StartingWorker { index }, WorkspaceEvent::Done) => {
                let next = if index < self.workers {
                    index + 1
                } else {
                    self.workers
                };
                self.start_worker(next)
            },
            (WorkspacePhase::Listing, WorkspaceEvent::Running { count }) => self.stop_worker(
                0,
                count,
            ),
            (WorkspacePhase::StoppingWorker { index, count }, WorkspaceEvent::Done) => {
                let next = if index < count {
                    index + 1
                } else {
                    count
                };
                self.stop_worker(next, count)
            },
            (WorkspacePhase::Awaiting, WorkspaceEvent::Done) => match self.desired {
                DesiredActivation::On => self.go(
                    WorkspacePhase::RecordingOnline,
                    WorkspaceAction::RecordOnline,
                ),
                DesiredActivation::Off => self.go(
                    WorkspacePhase::Deactivating,
                    WorkspaceAction::Deactivate,
                ),
            },
            (WorkspacePhase::RecordingOnline, WorkspaceEvent::Done) => self.go(
                WorkspacePhase::Ended,
                WorkspaceAction::Report,
            ),
            (WorkspacePhase::Deactivating, WorkspaceEvent::Done) => self.go(
                WorkspacePhase::StoppingDaemon { forget: true },
                WorkspaceAction::StopDaemon,
            ),
            (WorkspacePhase::StoppingDaemon { forget }, WorkspaceEvent::Done) => if forget {
                self.go(WorkspacePhase::Forgetting, WorkspaceAction::RemoveCapability)
            } else {
                self.go(WorkspacePhase::Ended, WorkspaceAction::Report)
            },
            (WorkspacePhase::Forgetting, WorkspaceEvent::Done) => self.go(
                WorkspacePhase::Ended,
                WorkspaceAction::Report,
            ),
            (WorkspacePhase::RecordingRecovery, WorkspaceEvent::Done) => self.go(
                WorkspacePhase::Ended,
                WorkspaceAction::Fail,
            ),
            (WorkspacePhase::RecordingRecovery, WorkspaceEvent::Failed) => self.go(
                WorkspacePhase::Ended,
                WorkspaceAction::Fail,
            ),
            (WorkspacePhase::Idle, WorkspaceEvent::Failed) => WorkspaceAction::Wait,
            (WorkspacePhase::Ended, WorkspaceEvent::Failed) => WorkspaceAction::Wait,
            (_, WorkspaceEvent::Failed) => self.go(
                WorkspacePhase::RecordingRecovery,
                WorkspaceAction::RecordRecovery,
            ),
            _ => WorkspaceAction::Wait,
        }
    }
}

// ---------------------------------------------------------------------------------------------
// Laws
// ---------------------------------------------------------------------------------------------

/// A workspace is recorded as online only once its Workers were waited for, and Workers are started
/// only after the Supervisor runs or the Worker before them was started.
pub proof fn workspaces_start_in_order(
    desired: DesiredActivation,
    workers: usize,
    phase: WorkspacePhase,
    event: WorkspaceEvent,
)
    ensures
        ({
            let action = workspace_step(desired, workers, phase, event).1;
            &&& action == WorkspaceAction::RecordOnline ==> phase == WorkspacePhase::Awaiting
                && event == WorkspaceEvent::Done && desired == DesiredActivation::On
            &&& forall|index: usize|
                action == (WorkspaceAction::StartWorker { index }) ==> index < workers && if index
                    == 0 {
                    phase == WorkspacePhase::ProbingSupervisor || phase
                        == WorkspacePhase::OpeningSupervisor
                } else {
                    event == WorkspaceEvent::Done && phase == (WorkspacePhase::StartingWorker {
                        index: (index - 1) as usize,
                    })
                }
            &&& action == WorkspaceAction::ProbeSupervisor ==> phase == WorkspacePhase::ProbingDaemon
                || phase == WorkspacePhase::StartingDaemon
        }),
{
}

/// The Supervisor's capability is removed only after the Coordinator ended, and the Coordinator of
/// a registered Supervisor ends only after it was deactivated.
pub proof fn workspaces_stop_in_order(
    desired: DesiredActivation,
    workers: usize,
    phase: WorkspacePhase,
    event: WorkspaceEvent,
)
    ensures
        ({
            let (next, action) = workspace_step(desired, workers, phase, event);
            &&& action == WorkspaceAction::RemoveCapability ==> event == WorkspaceEvent::Done
                && phase == (WorkspacePhase::StoppingDaemon { forget: true })
            &&& next == (WorkspacePhase::StoppingDaemon { forget: true }) && next != phase ==> phase
                == WorkspacePhase::Deactivating && event == WorkspaceEvent::Done
            &&& action == WorkspaceAction::Deactivate ==> phase == WorkspacePhase::Awaiting && event
                == WorkspaceEvent::Done && desired == DesiredActivation::Off
        }),
{
}

/// Whatever fails on the way, the workspace is recorded as in need of recovery, and then the
/// change fails.
pub proof fn failures_are_recorded(
    desired: DesiredActivation,
    workers: usize,
    phase: WorkspacePhase,
    recorded: bool,
)
    requires
        may_fail(phase),
    ensures
        ({
            let told = if recorded {
                WorkspaceEvent::Done
            } else {
                WorkspaceEvent::Failed
            };
            let a = workspace_step(desired, workers, phase, WorkspaceEvent::Failed);
            &&& a.1 == WorkspaceAction::RecordRecovery
            &&& workspace_step(desired, workers, a.0, told) == (
                WorkspacePhase::Ended,
                WorkspaceAction::Fail,
            )
        }),
{
}

} // verus!

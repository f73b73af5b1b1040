//! The start of a Worker from a tool call as a machine: the Coordinator is asked, then a pane is
//! opened, and a start whose pane does not open is taken back.
use vstd::prelude::*;

use crate::mcp::START_ATTEMPTS;

verus! {

/// Why a start fails.
#[derive(Debug, Clone, Copy, PartialEq, Eq, Structural)]
pub enum StartFailure {
    /// The Coordinator could not be reached.
    Unreachable,
    /// The Coordinator refused the start.
    Refused,
    /// The Worker's pane did not open.
    Unopened,
}

/// What a start waits for.
#[derive(Debug, Clone, Copy, PartialEq, Eq, Structural)]
pub enum StartPhase {
    /// Its beginning.
    Idle,
    /// The answer of the Coordinator to attempt number `attempt`.
    Asking { attempt: u32 },
    /// The Worker's pane.
    Opening,
    /// The end of what the Coordinator was told to take back.
    Aborting,
    /// Nothing any more.
    Ended,
}

/// What a start is told.
#[derive(Debug, Clone, Copy, PartialEq, Eq, Structural)]
pub enum StartEvent {
    /// The start begins.
    Begun,
    /// The Coordinator accepted or refused it.
    Answered { accepted: bool },
    /// The last action succeeded.
    Done,
    /// The last action failed.
    Failed,
}

/// What a start does next.
#[derive(Debug, Clone, Copy, PartialEq, Eq, Structural)]
pub enum StartAction {
    Wait,
    Ask,
    OpenPane,
    Abort,
    Report,
    Fail { why: StartFailure },
}

/// One step of a start. An event that its phase does not wait for changes nothing.
pub open spec fn start_step(phase: StartPhase, event: StartEvent) -> (StartPhase, StartAction) {
    match (phase, event) {
        (StartPhase::Idle, StartEvent::Begun) => (
            StartPhase::Asking { attempt: 1 },
            StartAction::Ask,
        ),
        (StartPhase::Asking { attempt }, StartEvent::Failed) => if attempt < START_ATTEMPTS {
            (StartPhase::Asking { attempt: (attempt + 1) as u32 }, StartAction::Ask)
        } else {
            (StartPhase::Ended, StartAction::Fail { why: StartFailure::Unreachable })
        },
        (StartPhase::Asking { .. }, StartEvent::Answered { accepted }) => if accepted {
            (StartPhase::Opening, StartAction::OpenPane)
        } else {
            (StartPhase::Ended, StartAction::Fail { why: StartFailure::Refused })
        },
        (StartPhase::Opening, StartEvent::Done) => (StartPhase::Ended, StartAction::Report),
        (StartPhase::Opening, StartEvent::Failed) => (StartPhase::Aborting, StartAction::Abort),
        (StartPhase::Aborting, StartEvent::Done) => (
            StartPhase::Ended,
            StartAction::Fail { why: StartFailure::Unopened },
        ),
        (StartPhase::Aborting, StartEvent::Failed) => (
            StartPhase::Ended,
            StartAction::Fail { why: StartFailure::Unopened },
        ),
        _ => (phase, StartAction::Wait),
    }
}

/// The start of a Worker under way.
#[derive(Debug, Clone, Copy, PartialEq, Eq)]
pub struct WorkerLaunch {
    pub phase: StartPhase,
}

impl WorkerLaunch {
    /// A start that has not begun.
    pub fn new() -> (r: WorkerLaunch)
        ensures
            r.phase == StartPhase::Idle,
    {
        WorkerLaunch { phase: StartPhase::Idle }
    }

    fn go(&mut self, phase: StartPhase, action: StartAction) -> (r: StartAction)
        ensures
            final(self).phase == phase,
            r == action,
    {
        self.phase = phase;
        action
    }

    /// Takes in an event and says what to do.
    pub fn step(&mut self, event: StartEvent) -> (r: StartAction)
        ensures
            (final(self).phase, r) == start_step(old(self).phase, event),
    {
        match (self.phase, event) {
            (StartPhase::Idle, StartEvent::Begun) => self.go(
                StartPhase::Asking { attempt: 1 },
                StartAction::Ask,
            ),
            (StartPhase::Asking { attempt }, StartEvent::Failed) => if attempt < START_ATTEMPTS {
                self.go(StartPhase::Asking { attempt: attempt + 1 }, StartAction::Ask)
            } else {
                self.go(
                    StartPhase::Ended,
                    StartAction::Fail { why: StartFailure::Unreachable },
                )
            },
            (StartPhase::Asking { .. }, StartEvent::Answered { accepted }) => if accepted {
                self.go(StartPhase::Opening, StartAction::OpenPane)
            } else {
                self.go(StartPhase::Ended, StartAction::Fail { why: StartFailure::Refused })
            },
            (StartPhase::Opening, StartEvent::Done) => self.go(
                StartPhase::Ended,
                StartAction::Report,
            ),
            (StartPhase::Opening, StartEvent::Failed) => self.go(
                StartPhase::Aborting,
                StartAction::Abort,
            ),
            (StartPhase::Aborting, StartEvent::Done) => self.go(
                StartPhase::Ended,
                StartAction::Fail { why: StartFailure::Unopened },
            ),
            (StartPhase::Aborting, StartEvent::Failed) => self.go(
                StartPhase::Ended,
                StartAction::Fail { why: StartFailure::Unopened },
            ),
            _ => StartAction::Wait,
        }
    }
}

/// The Coordinator is asked so many times in all, and again only where it could not be reached.
pub proof fn starts_are_asked_for_a_bounded_number_of_times(phase: StartPhase, event: StartEvent)
    requires
        match phase {
            StartPhase::Asking { attempt } => 1 <= attempt <= START_ATTEMPTS,
            _ => true,
        },
    ensures
        match start_step(phase, event).0 {
            StartPhase::Asking { attempt } => 1 <= attempt <= START_ATTEMPTS && (
            start_step(phase, event).1 == StartAction::Ask ==> match phase {
                StartPhase::Asking { attempt: before } => attempt == before + 1 && event
                    == StartEvent::Failed,
                _ => attempt == 1,
            }),
            _ => true,
        },
{
}

/// A start is taken back exactly where the Coordinator accepted it and its pane did not open, and
/// it is reported only once the pane is open.
pub proof fn unopened_starts_are_taken_back(phase: StartPhase, event: StartEvent)
    ensures
        ({
            let (next, action) = start_step(phase, event);
            &&& action == StartAction::Abort <==> phase == StartPhase::Opening && event
                == StartEvent::Failed
            &&& action == StartAction::Report <==> phase == StartPhase::Opening && event
                == StartEvent::Done
            &&& next == StartPhase::Opening && phase != next ==> event == (StartEvent::Answered {
                accepted: true,
            })
            &&& phase == StartPhase::Ended ==> (next, action) == (phase, StartAction::Wait)
        }),
{
}

} // verus!

//! The loop of the managed Supervisor terminal as a machine: an event comes in, its place in the
//! round changes, and one action comes out.
use vstd::prelude::*;

use crate::adapter::AdapterLifecycle;
use crate::contract::HarnessKind;
use crate::host::DeliveryResult;
use crate::identity::SupervisorEventId;
use crate::supervisor_host::{may_claim, receptive, settle_injection, InjectionStep};

verus! {

/// What a Supervisor terminal waits for.
#[derive(Debug, Clone, Copy, PartialEq, Eq, Structural)]
pub enum SupervisorPhase {
    /// Its beginning.
    Idle,
    /// The start of its provider.
    Binding,
    /// The record of the native Session.
    Announcing,
    /// The first state of the provider.
    Looking,
    /// The record of that state.
    Reporting,
    /// A line, a tick, or an event of the provider.
    Waiting,
    /// The end of a prompt.
    Prompting,
    /// The state of the provider.
    Snapshotting,
    /// The answer to its claim of an event.
    Claiming,
    /// The summary of a claimed event.
    Summarizing { event: SupervisorEventId, steer: bool },
    /// The end of an injection.
    Injecting { event: SupervisorEventId },
    /// The record of an injection.
    Settling,
    /// The end of its provider.
    Stopping { failed: bool },
    /// The record of its end.
    Disconnecting { failed: bool },
    /// Nothing any more.
    Ended,
}

/// What a Supervisor terminal is told.
#[derive(Debug, Clone, Copy, PartialEq, Eq)]
pub enum SupervisorNews {
    /// The terminal begins.
    Begun,
    /// The poll interval passed.
    Tick,
    /// A line was typed.
    Line { blank: bool },
    /// No more lines come.
    InputClosed,
    /// Lines can no longer be read.
    InputFailed,
    /// The last action succeeded and has nothing more to say.
    Answered,
    /// The last action failed.
    Refused,
    /// The state of the provider.
    Snapshot { lifecycle: AdapterLifecycle },
    /// The claimed event, and whether it steers.
    Claimed { event: Option<(SupervisorEventId, bool)> },
    /// How the injection went.
    Injected { result: DeliveryResult },
    /// The provider has something to show.
    Shown,
    /// The provider said something else.
    Noted,
    /// The provider failed, exited, or can no longer be read.
    Gone,
}

/// What a Supervisor terminal does next.
#[derive(Debug, Clone, Copy, PartialEq, Eq, Structural)]
pub enum SupervisorAction {
    Wait,
    BindProvider,
    RecordBinding,
    RecordSnapshot,
    Show,
    SendPrompt,
    Snapshot,
    ClaimEvent,
    Summarize { event: SupervisorEventId },
    Inject { event: SupervisorEventId, steer: bool },
    Accept { event: SupervisorEventId },
    MarkUnknown { event: SupervisorEventId },
    Release { event: SupervisorEventId },
    StopProvider,
    RecordDisconnected,
    Finish,
    Fail,
}

/// The record of an injection.
pub open spec fn record_of(event: SupervisorEventId, result: DeliveryResult) -> SupervisorAction {
    match result {
        DeliveryResult::Accepted => SupervisorAction::Accept { event },
        DeliveryResult::Ambiguous => SupervisorAction::MarkUnknown { event },
        DeliveryResult::Unwritten => SupervisorAction::Release { event },
    }
}

/// The end of a terminal begins with the end of its provider.
pub open spec fn ending(failed: bool) -> (SupervisorPhase, SupervisorAction) {
    (SupervisorPhase::Stopping { failed }, SupervisorAction::StopProvider)
}

/// A terminal that did not come to wait ends at once.
pub open spec fn unstarted() -> (SupervisorPhase, SupervisorAction) {
    (SupervisorPhase::Ended, SupervisorAction::Fail)
}

/// One step of a terminal with a provider of a kind. News that its phase does not wait for change
/// nothing.
pub open spec fn supervisor_step(
    kind: HarnessKind,
    phase: SupervisorPhase,
    news: SupervisorNews,
) -> (SupervisorPhase, SupervisorAction) {
    match (phase, news) {
        (SupervisorPhase::Idle, SupervisorNews::Begun) => (
            SupervisorPhase::Binding,
            SupervisorAction::BindProvider,
        ),
        (SupervisorPhase::Binding, SupervisorNews::Answered) => (
            SupervisorPhase::Announcing,
            SupervisorAction::RecordBinding,
        ),
        (SupervisorPhase::Announcing, SupervisorNews::Answered) => (
            SupervisorPhase::Looking,
            SupervisorAction::Snapshot,
        ),
        (SupervisorPhase::Looking, SupervisorNews::Snapshot { .. }) => (
            SupervisorPhase::Reporting,
            SupervisorAction::RecordSnapshot,
        ),
        (SupervisorPhase::Reporting, SupervisorNews::Answered) => (
            SupervisorPhase::Waiting,
            SupervisorAction::Wait,
        ),
        (SupervisorPhase::Binding, SupervisorNews::Refused) => unstarted(),
        (SupervisorPhase::Announcing, SupervisorNews::Refused) => unstarted(),
        (SupervisorPhase::Looking, SupervisorNews::Refused) => unstarted(),
        (SupervisorPhase::Reporting, SupervisorNews::Refused) => unstarted(),
        (SupervisorPhase::Waiting, SupervisorNews::Line { blank }) => if blank {
            (phase, SupervisorAction::Wait)
        } else {
            (SupervisorPhase::Prompting, SupervisorAction::SendPrompt)
        },
        (SupervisorPhase::Waiting, SupervisorNews::InputClosed) => ending(false),
        (SupervisorPhase::Waiting, SupervisorNews::InputFailed) => ending(true),
        (SupervisorPhase::Waiting, SupervisorNews::Tick) => (
            SupervisorPhase::Snapshotting,
            SupervisorAction::Snapshot,
        ),
        (SupervisorPhase::Waiting, SupervisorNews::Shown) => (phase, SupervisorAction::Show),
        (SupervisorPhase::Waiting, SupervisorNews::Gone) => ending(true),
        (SupervisorPhase::Prompting, SupervisorNews::Answered) => (
            SupervisorPhase::Waiting,
            SupervisorAction::Wait,
        ),
        (SupervisorPhase::Prompting, SupervisorNews::Refused) => (
            SupervisorPhase::Waiting,
            SupervisorAction::Wait,
        ),
        (SupervisorPhase::Snapshotting, SupervisorNews::Snapshot { lifecycle }) => if receptive(
            kind,
            lifecycle,
        ) {
            (SupervisorPhase::Claiming, SupervisorAction::ClaimEvent)
        } else {
            (SupervisorPhase::Waiting, SupervisorAction::Wait)
        },
        (SupervisorPhase::Claiming, SupervisorNews::Claimed { event }) => match event {
            None => (SupervisorPhase::Waiting, SupervisorAction::Wait),
            Some((event, steer)) => (
                SupervisorPhase::Summarizing { event, steer },
                SupervisorAction::Summarize { event },
            ),
        },
        (SupervisorPhase::Summarizing { event, steer }, SupervisorNews::Answered) => (
            SupervisorPhase::Injecting { event },
            SupervisorAction::Inject { event, steer },
        ),
        (SupervisorPhase::Injecting { event }, SupervisorNews::Injected { result }) => (
            SupervisorPhase::Settling,
            record_of(event, result),
        ),
        (SupervisorPhase::Settling, SupervisorNews::Answered) => (
            SupervisorPhase::Waiting,
            SupervisorAction::Wait,
        ),
        (SupervisorPhase::Snapshotting, SupervisorNews::Refused) => ending(true),
        (SupervisorPhase::Claiming, SupervisorNews::Refused) => ending(true),
        (SupervisorPhase::Summarizing { .. }, SupervisorNews::Refused) => ending(true),
        (SupervisorPhase::Settling, SupervisorNews::Refused) => ending(true),
        (SupervisorPhase::Stopping { failed }, SupervisorNews::Answered) => (
            SupervisorPhase::Disconnecting { failed },
            SupervisorAction::RecordDisconnected,
        ),
        (SupervisorPhase::Stopping { failed }, SupervisorNews::Refused) => (
            SupervisorPhase::Disconnecting { failed },
            SupervisorAction::RecordDisconnected,
        ),
        (SupervisorPhase::Disconnecting { failed }, SupervisorNews::Answered) => (
            SupervisorPhase::Ended,
            if failed {
                SupervisorAction::Fail
            } else {
                SupervisorAction::Finish
            },
        ),
        (SupervisorPhase::Disconnecting { .. }, SupervisorNews::Refused) => (
            SupervisorPhase::Ended,
            SupervisorAction::Fail,
        ),
        _ => (phase, SupervisorAction::Wait),
    }
}

/// A Supervisor terminal: the kind of its provider, and what it waits for.
#[derive(Debug, Clone, Copy, PartialEq, Eq)]
pub struct SupervisorLoop {
    pub kind: HarnessKind,
    pub phase: SupervisorPhase,
}

impl SupervisorLoop {
    /// A terminal that has not begun.
    pub fn new(kind: HarnessKind) -> (r: SupervisorLoop)
        ensures
            r == (SupervisorLoop { kind, phase: SupervisorPhase::Idle }),
    {
        SupervisorLoop { kind, phase: SupervisorPhase::Idle }
    }

    fn go(&mut self, phase: SupervisorPhase, action: SupervisorAction) -> (r: SupervisorAction)
        ensures
            *final(self) == (SupervisorLoop { phase, ..*old(self) }),
            r == action,
    {
        self.phase = phase;
        action
    }

    fn end(&mut self, failed: bool) -> (r: SupervisorAction)
        ensures
            final(self).kind == old(self).kind,
            (final(self).phase, r) == ending(failed),
    {
        self.go(SupervisorPhase::Stopping { failed }, SupervisorAction::StopProvider)
    }

    fn give_up(&mut self) -> (r: SupervisorAction)
        ensures
            final(self).kind == old(self).kind,
            (final(self).phase, r) == unstarted(),
    {
        self.go(SupervisorPhase::Ended, SupervisorAction::Fail)
    }

    /// Takes in news and says what to do.
    pub fn step(&mut self, news: SupervisorNews) -> (r: SupervisorAction)
        ensures
            final(self).kind == old(self).kind,
            (final(self).phase, r) == supervisor_step(old(self).kind, old(self).phase, news),
    {
        match (self.phase, news) {
            (SupervisorPhase::Idle, SupervisorNews::Begun) => self.go(
                SupervisorPhase::Binding,
                SupervisorAction::BindProvider,
            ),
            (SupervisorPhase::Binding, SupervisorNews::Answered) => self.go(
                SupervisorPhase::Announcing,
                SupervisorAction::RecordBinding,
            ),
            (SupervisorPhase::Announcing, SupervisorNews::Answered) => self.go(
                SupervisorPhase::Looking,
                SupervisorAction::Snapshot,
            ),
            (SupervisorPhase::Looking, SupervisorNews::Snapshot { .. }) => self.go(
                SupervisorPhase::Reporting,
                SupervisorAction::RecordSnapshot,
            ),
            (SupervisorPhase::Reporting, SupervisorNews::Answered) => self.go(
                SupervisorPhase::Waiting,
                SupervisorAction::Wait,
            ),
            (SupervisorPhase::Binding, SupervisorNews::Refused) => self.give_up(),
            (SupervisorPhase::Announcing, SupervisorNews::Refused) => self.give_up(),
            (SupervisorPhase::Looking, SupervisorNews::Refused) => self.give_up(),
            (SupervisorPhase::Reporting, SupervisorNews::Refused) => self.give_up(),
            (SupervisorPhase::Waiting, SupervisorNews::Line { blank }) => if blank {
                SupervisorAction::Wait
            } else {
                self.go(SupervisorPhase::Prompting, SupervisorAction::SendPrompt)
            },
            (SupervisorPhase::Waiting, SupervisorNews::InputClosed) => self.end(false),
            (SupervisorPhase::Waiting, SupervisorNews::InputFailed) => self.end(true),
            (SupervisorPhase::Waiting, SupervisorNews::Tick) => self.go(
                SupervisorPhase::Snapshotting,
                SupervisorAction::Snapshot,
            ),
            (SupervisorPhase::Waiting, SupervisorNews::Shown) => SupervisorAction::Show,
            (SupervisorPhase::Waiting, SupervisorNews::Gone) => self.end(true),
            (SupervisorPhase::Prompting, SupervisorNews::Answered) => self.go(
                SupervisorPhase::Waiting,
                SupervisorAction::Wait,
            ),
            (SupervisorPhase::Prompting, SupervisorNews::Refused) => self.go(
                SupervisorPhase::Waiting,
                SupervisorAction::Wait,
            ),
            (SupervisorPhase::Snapshotting, SupervisorNews::Snapshot { lifecycle }) => if may_claim(
                self.kind,
                lifecycle,
            ) {
                self.go(SupervisorPhase::Claiming, SupervisorAction::ClaimEvent)
            } else {
                self.go(SupervisorPhase::Waiting, SupervisorAction::Wait)
            },
            (SupervisorPhase::Claiming, SupervisorNews::Claimed { event }) => match event {
                None => self.go(SupervisorPhase::Waiting, SupervisorAction::Wait),
                Some((event, steer)) => self.go(
                    SupervisorPhase::Summarizing { event, steer },
                    SupervisorAction::Summarize { event },
                ),
            },
            (SupervisorPhase::Summarizing { event, steer }, SupervisorNews::Answered) => self.go(
                SupervisorPhase::Injecting { event },
                SupervisorAction::Inject { event, steer },
            ),
            (SupervisorPhase::Injecting { event }, SupervisorNews::Injected { result }) => {
                let action = match settle_injection(result) {
                    InjectionStep::Accept => SupervisorAction::Accept { event },
                    InjectionStep::Doubt => SupervisorAction::MarkUnknown { event },
                    InjectionStep::Release => SupervisorAction::Release { event },
                };
                self.go(SupervisorPhase::Settling, action)
            },
            (SupervisorPhase::Settling, SupervisorNews::Answered) => self.go(
                SupervisorPhase::Waiting,
                SupervisorAction::Wait,
            ),
            (SupervisorPhase::Snapshotting, SupervisorNews::Refused) => self.end(true),
            (SupervisorPhase::Claiming, SupervisorNews::Refused) => self.end(true),
            (SupervisorPhase::Summarizing { .. }, SupervisorNews::Refused) => self.end(true),
            (SupervisorPhase::Settling, SupervisorNews::Refused) => self.end(true),
            (SupervisorPhase::Stopping { failed }, SupervisorNews::Answered) => self.go(
                SupervisorPhase::Disconnecting { failed },
                SupervisorAction::RecordDisconnected,
            ),
            (SupervisorPhase::Stopping { failed }, SupervisorNews::Refused) => self.go(
                SupervisorPhase::Disconnecting { failed },
                SupervisorAction::RecordDisconnected,
            ),
            (SupervisorPhase::Disconnecting { failed }, SupervisorNews::Answered) => {
                let action = if failed {
                    SupervisorAction::Fail
                } else {
                    SupervisorAction::Finish
                };
                self.go(SupervisorPhase::Ended, action)
            },
            (SupervisorPhase::Disconnecting { .. }, SupervisorNews::Refused) => self.go(
                SupervisorPhase::Ended,
                SupervisorAction::Fail,
            ),
            _ => SupervisorAction::Wait,
        }
    }
}

// ---------------------------------------------------------------------------------------------
// Laws
// ---------------------------------------------------------------------------------------------

/// An event is claimed only right after the provider was seen able to take one.
pub proof fn claims_follow_a_look(
    kind: HarnessKind,
    phase: SupervisorPhase,
    news: SupervisorNews,
)
    ensures
        supervisor_step(kind, phase, news).1 == SupervisorAction::ClaimEvent ==> phase
            == SupervisorPhase::Snapshotting && news is Snapshot && receptive(
            kind,
            news->lifecycle,
        ),
{
}

/// An injected event is recorded at once, as accepted, in doubt or released, and the terminal then
/// waits again or ends.
pub proof fn injected_events_are_recorded(
    kind: HarnessKind,
    event: SupervisorEventId,
    result: DeliveryResult,
    recorded: bool,
)
    ensures
        ({
            let told = if recorded {
                SupervisorNews::Answered
            } else {
                SupervisorNews::Refused
            };
            let injected = SupervisorNews::Injected { result };
            let a = supervisor_step(kind, SupervisorPhase::Injecting { event }, injected);
            let b = supervisor_step(kind, a.0, told);
            &&& a.1 == record_of(event, result)
            &&& recorded ==> b == (SupervisorPhase::Waiting, SupervisorAction::Wait)
            &&& !recorded ==> b == ending(true)
        }),
{
}

/// The places of a terminal before it waits for the first time.
pub open spec fn is_starting(phase: SupervisorPhase) -> bool {
    phase is Idle || phase is Binding || phase is Announcing || phase is Looking || phase
        is Reporting
}

/// The native Session is recorded only after the provider started, its state only after that, and
/// nothing is claimed, prompted or injected before both were taken.
pub proof fn bound_terminals_have_started(
    kind: HarnessKind,
    phase: SupervisorPhase,
    news: SupervisorNews,
)
    ensures
        ({
            let (next, action) = supervisor_step(kind, phase, news);
            &&& action == SupervisorAction::RecordBinding ==> phase == SupervisorPhase::Binding
                && news == SupervisorNews::Answered
            &&& action == SupervisorAction::RecordSnapshot ==> phase == SupervisorPhase::Looking
                && news is Snapshot
            &&& next == SupervisorPhase::Looking && phase != next ==> phase
                == SupervisorPhase::Announcing && news == SupervisorNews::Answered
            &&& is_starting(phase) && !is_starting(next) ==> next == SupervisorPhase::Ended || next
                == SupervisorPhase::Waiting && phase == SupervisorPhase::Reporting && news
                == SupervisorNews::Answered
        }),
{
}

/// A terminal that came to wait ends only after its provider was stopped and its end was recorded,
/// and none goes on after its end.
pub proof fn ends_are_recorded(kind: HarnessKind, phase: SupervisorPhase, news: SupervisorNews)
    ensures
        supervisor_step(kind, phase, news).0 is Ended && !(phase is Ended) ==> phase
            is Disconnecting || is_starting(phase),
        supervisor_step(kind, phase, news).0 is Disconnecting && !(phase is Disconnecting) ==> phase
            is Stopping,
        phase is Ended ==> supervisor_step(kind, phase, news) == (phase, SupervisorAction::Wait),
{
}

} // verus!

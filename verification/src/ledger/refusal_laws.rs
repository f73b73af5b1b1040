//! What a refused command leaves behind.
use vstd::prelude::*;

use crate::ledger::execute::{authorize, execute, perform, Caller, CoordinatorCommand};
use crate::ledger::Model;
use crate::rows::AuthenticatedActor;

verus! {

/// Commands that note what they learned even where they refuse: a dispatch that gives up a Session
/// binding, a Result whose snapshot is stored before its revision turns out to have one, and
/// reports of turns, cancellations, observations and Hosts whose evidence is missing.
pub open spec fn may_leave_a_trace(command: CoordinatorCommand) -> bool {
    command is ReapStaleHostConnections
        || command is AbortWorkerStart
        || command is DispatchTask
        || command is ClaimNextTask
        || command is CompleteTask
        || command is RecordTurnCompleted
        || command is CaptureRepositoryObservation
        || command is ApproveTask
        || command is RecordCancellationCompleted
        || command is RecordHostFailed
}

/// A caller without authority changes nothing.
pub proof fn unauthorized_commands_change_nothing(
    m: Model,
    caller: Caller,
    command: CoordinatorCommand,
    now: u64,
)
    requires
        authorize(m, caller, command, now) is Err,
    ensures
        execute(m, caller, command, now).0 == m,
        execute(m, caller, command, now).1 is Err,
{
}

#[verifier::spinoff_prover]
proof fn refused_performances_change_nothing(
    m: Model,
    actor: AuthenticatedActor,
    command: CoordinatorCommand,
    now: u64,
)
    requires
        !may_leave_a_trace(command),
        perform(m, actor, command, now).1 is Err,
    ensures
        perform(m, actor, command, now).0 == m,
{
}

/// A command that is refused changes nothing, unless it notes what it learned on the way.
pub proof fn refused_commands_change_nothing(
    m: Model,
    caller: Caller,
    command: CoordinatorCommand,
    now: u64,
)
    requires
        !may_leave_a_trace(command),
        execute(m, caller, command, now).1 is Err,
    ensures
        execute(m, caller, command, now).0 == m,
{
    if let Ok(Some(actor)) = authorize(m, caller, command, now) {
        refused_performances_change_nothing(m, actor, command, now);
    }
}

} // verus!

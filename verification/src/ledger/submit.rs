//! The entry for commands from outside: what a command names by text and by number is one thing,
//! and its instant can be kept.
use vstd::prelude::*;

use crate::error::{refusal, refuse, CoordinatorError, ErrorCategory, Refusal};
use crate::ledger::dispatch::DispatchFacts;
use crate::ledger::evidence::concludes;
use crate::ledger::execute::{execute, Caller, CommandOutcome, CoordinatorCommand};
use crate::ledger::{Ledger, Model};
use crate::names::{named, NameTable};
use crate::rows::TextKey;
use crate::text::{optional_text, same_text};

verus! {

/// The last instant that can be kept, in microseconds.
pub const LAST_INSTANT: u64 = 0x7fff_ffff_ffff_ffff;

/// A number is that of a text.
pub open spec fn numbers(names: Seq<Seq<char>>, key: TextKey, text: Seq<char>) -> bool {
    named(names, key) == Some(text)
}

/// A number is that of a text, or there is neither.
pub open spec fn numbers_any(
    names: Seq<Seq<char>>,
    key: Option<TextKey>,
    text: Option<Seq<char>>,
) -> bool {
    match (key, text) {
        (Some(key), Some(text)) => numbers(names, key, text),
        (None, None) => true,
        _ => false,
    }
}

/// The numbers of a verdict on a Session are those of its code and its reason.
pub open spec fn verdict_agrees(names: Seq<Seq<char>>, facts: DispatchFacts) -> bool {
    numbers(names, facts.decision.code, facts.decision.reason_code@) && numbers(
        names,
        facts.decision.words,
        facts.decision.reason@,
    )
}

/// Every number under which a command brings a text that it also spells out is that of the text.
pub open spec fn names_agree(names: Seq<Seq<char>>, command: CoordinatorCommand) -> bool {
    match command {
        CoordinatorCommand::BindHostConnection { instance_id, connection } => numbers(
            names,
            connection.instance,
            instance_id@,
        ),
        CoordinatorCommand::DisconnectHostConnection { diagnostic, key } => numbers_any(
            names,
            key,
            optional_text(diagnostic),
        ),
        CoordinatorCommand::AdmitAttachment { attachment, media_type, original_name } => numbers(
            names,
            attachment.media_type,
            media_type@,
        ) && numbers(names, attachment.original_name, original_name@),
        CoordinatorCommand::DispatchTask { facts, .. } => verdict_agrees(names, facts),
        CoordinatorCommand::ClaimNextTask { facts } => verdict_agrees(names, facts),
        CoordinatorCommand::AcceptDelivery { native_correlation, correlation, .. } => numbers(
            names,
            correlation,
            native_correlation@,
        ),
        CoordinatorCommand::CompleteTask { native_turn_id, result, .. } => numbers(
            names,
            result.turn,
            native_turn_id@,
        ),
        CoordinatorCommand::ApproveTask { observation_digest, digest, .. } => numbers(
            names,
            digest,
            observation_digest@,
        ),
        CoordinatorCommand::MarkDeliveryUnknown { diagnostic, key, .. } => numbers(
            names,
            key,
            diagnostic@,
        ),
        CoordinatorCommand::ResolveDeliveryUnknown {
            observation_digest,
            digest,
            audit_note,
            note,
            ..
        } => numbers(names, digest, observation_digest@) && numbers(names, note, audit_note@),
        CoordinatorCommand::ClearWorktreeHold {
            observation_digest,
            digest,
            audit_note,
            note,
            ..
        } => numbers(names, digest, observation_digest@) && numbers(names, note, audit_note@),
        CoordinatorCommand::RecordHostFailed { diagnostic, key, .. } => numbers(
            names,
            key,
            diagnostic@,
        ),
        CoordinatorCommand::RecordHostCompatibility {
            resolved_executable,
            observed_version,
            found,
            ..
        } => numbers(names, found.executable, resolved_executable@) && numbers(
            names,
            found.version,
            observed_version@,
        ),
        CoordinatorCommand::RecordSupervisorDisconnected { diagnostic, key } => numbers_any(
            names,
            key,
            optional_text(diagnostic),
        ),
        CoordinatorCommand::AcceptSupervisorEvent { native_correlation, evidence, said, .. } => {
            numbers(names, said.correlation, native_correlation@) && numbers(
                names,
                said.evidence,
                evidence@,
            )
        },
        CoordinatorCommand::RecordSupervisorEventPresentation { evidence, key, .. } => numbers(
            names,
            key,
            evidence@,
        ),
        CoordinatorCommand::MarkSupervisorEventUnknown { diagnostic, key, .. } => numbers(
            names,
            key,
            diagnostic@,
        ),
        CoordinatorCommand::ReleaseSupervisorEvent { diagnostic, key, .. } => numbers(
            names,
            key,
            diagnostic@,
        ),
        CoordinatorCommand::ReconcileSupervisorEvent { audit_note, note, .. } => numbers(
            names,
            note,
            audit_note@,
        ),
        _ => true,
    }
}

fn is_number_of(names: &NameTable, key: TextKey, text: &str) -> (r: bool)
    ensures
        r == numbers(names@, key, text@),
{
    match names.name(key) {
        Some(name) => same_text(name, text),
        None => false,
    }
}

fn is_any_number_of(names: &NameTable, key: Option<TextKey>, text: &Option<String>) -> (r: bool)
    ensures
        r == numbers_any(names@, key, optional_text(*text)),
{
    match (key, text) {
        (Some(key), Some(text)) => is_number_of(names, key, text.as_str()),
        (None, None) => true,
        _ => false,
    }
}

fn does_verdict_agree(names: &NameTable, facts: &DispatchFacts) -> (r: bool)
    ensures
        r == verdict_agrees(names@, *facts),
{
    is_number_of(names, facts.decision.code, facts.decision.reason_code.as_str()) && is_number_of(
        names,
        facts.decision.words,
        facts.decision.reason.as_str(),
    )
}

fn do_names_agree(names: &NameTable, command: &CoordinatorCommand) -> (r: bool)
    ensures
        r == names_agree(names@, *command),
{
    match command {
        CoordinatorCommand::BindHostConnection { instance_id, connection } => is_number_of(
            names,
            connection.instance,
            instance_id.as_str(),
        ),
        CoordinatorCommand::DisconnectHostConnection { diagnostic, key } => is_any_number_of(
            names,
            *key,
            diagnostic,
        ),
        CoordinatorCommand::AdmitAttachment {
            attachment,
            media_type,
            original_name,
        } => is_number_of(names, attachment.media_type, media_type.as_str()) && is_number_of(
            names,
            attachment.original_name,
            original_name.as_str(),
        ),
        CoordinatorCommand::DispatchTask { facts, .. } => does_verdict_agree(names, facts),
        CoordinatorCommand::ClaimNextTask { facts } => does_verdict_agree(names, facts),
        CoordinatorCommand::AcceptDelivery {
            native_correlation,
            correlation,
            ..
        } => is_number_of(names, *correlation, native_correlation.as_str()),
        CoordinatorCommand::CompleteTask { native_turn_id, result, .. } => is_number_of(
            names,
            result.turn,
            native_turn_id.as_str(),
        ),
        CoordinatorCommand::ApproveTask { observation_digest, digest, .. } => is_number_of(
            names,
            *digest,
            observation_digest.as_str(),
        ),
        CoordinatorCommand::MarkDeliveryUnknown { diagnostic, key, .. } => is_number_of(
            names,
            *key,
            diagnostic.as_str(),
        ),
        CoordinatorCommand::ResolveDeliveryUnknown {
            observation_digest,
            digest,
            audit_note,
            note,
            ..
        } => is_number_of(names, *digest, observation_digest.as_str()) && is_number_of(
            names,
            *note,
            audit_note.as_str(),
        ),
        CoordinatorCommand::ClearWorktreeHold {
            observation_digest,
            digest,
            audit_note,
            note,
            ..
        } => is_number_of(names, *digest, observation_digest.as_str()) && is_number_of(
            names,
            *note,
            audit_note.as_str(),
        ),
        CoordinatorCommand::RecordHostFailed { diagnostic, key, .. } => is_number_of(
            names,
            *key,
            diagnostic.as_str(),
        ),
        CoordinatorCommand::RecordHostCompatibility {
            resolved_executable,
            observed_version,
            found,
            ..
        } => is_number_of(names, found.executable, resolved_executable.as_str()) && is_number_of(
            names,
            found.version,
            observed_version.as_str(),
        ),
        CoordinatorCommand::RecordSupervisorDisconnected { diagnostic, key } => is_any_number_of(
            names,
            *key,
            diagnostic,
        ),
        CoordinatorCommand::AcceptSupervisorEvent {
            native_correlation,
            evidence,
            said,
            ..
        } => is_number_of(names, said.correlation, native_correlation.as_str()) && is_number_of(
            names,
            said.evidence,
            evidence.as_str(),
        ),
        CoordinatorCommand::RecordSupervisorEventPresentation {
            evidence,
            key,
            ..
        } => is_number_of(names, *key, evidence.as_str()),
        CoordinatorCommand::MarkSupervisorEventUnknown { diagnostic, key, .. } => is_number_of(
            names,
            *key,
            diagnostic.as_str(),
        ),
        CoordinatorCommand::ReleaseSupervisorEvent { diagnostic, key, .. } => is_number_of(
            names,
            *key,
            diagnostic.as_str(),
        ),
        CoordinatorCommand::ReconcileSupervisorEvent { audit_note, note, .. } => is_number_of(
            names,
            *note,
            audit_note.as_str(),
        ),
        _ => true,
    }
}

/// What a command from outside does: one at an instant that cannot be kept, or one of whose texts
/// goes under the number of another, is refused.
pub open spec fn submitted(
    m: Model,
    names: Seq<Seq<char>>,
    caller: Caller,
    command: CoordinatorCommand,
    now: u64,
) -> (Model, Result<CommandOutcome, Refusal>) {
    if now > LAST_INSTANT {
        (m, Err(refusal(ErrorCategory::StorageFailure, "instant is out of range"@)))
    } else if !names_agree(names, command) {
        (m, Err(refusal(ErrorCategory::StorageFailure, "command text is not interned"@)))
    } else {
        execute(m, caller, command, now)
    }
}

impl Ledger {
    /// Executes one command from outside, whose texts are numbered by `names`.
    pub fn submit(
        &mut self,
        names: &NameTable,
        caller: Caller,
        command: CoordinatorCommand,
        now: u64,
    ) -> (r: Result<CommandOutcome, CoordinatorError>)
        ensures
            concludes(r, final(self)@, submitted(old(self)@, names@, caller, command, now)),
    {
        if now > LAST_INSTANT {
            return Err(refuse(ErrorCategory::StorageFailure, "instant is out of range"));
        }
        if !do_names_agree(names, &command) {
            return Err(refuse(ErrorCategory::StorageFailure, "command text is not interned"));
        }
        self.execute(caller, command, now)
    }
}

} // verus!

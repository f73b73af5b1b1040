//! The words of Holds and Supervisor events.
use vstd::prelude::*;

use crate::identity::{uuid_form, uuid_text, written_identities_differ};
use crate::names::{named, NameTable};
use crate::rows::{EventOrigin, EventRow, HoldReason, Wording};
use crate::text::{decimal, decimal_text, decimals_differ, join, join3, optional_text, parts_agree};

verus! {

/// The persisted name of the reason of a Hold.
pub open spec fn hold_reason_name(reason: HoldReason) -> Seq<char> {
    match reason {
        HoldReason::OutOfScopeMutation => "out_of_scope_mutation"@,
        HoldReason::NativeTurnFailed => "native_turn_failed"@,
        HoldReason::RepositoryCheckpointFailed => "repository_checkpoint_failed"@,
        HoldReason::OutOfScopeApprovalDrift => "out_of_scope_approval_drift"@,
        HoldReason::RepositoryObservationFailed => "repository_observation_failed"@,
        HoldReason::CancelledAfterDispatch => "cancelled_after_dispatch"@,
        HoldReason::CancellationFailed => "cancellation_failed"@,
        HoldReason::DeliveryUnknown => "delivery_unknown"@,
        HoldReason::WorkerHostFailed => "worker_host_failed"@,
    }
}

/// Names the reason of a Hold.
pub fn name_hold_reason(reason: HoldReason) -> (r: &'static str)
    ensures
        r@ == hold_reason_name(reason),
{
    match reason {
        HoldReason::OutOfScopeMutation => "out_of_scope_mutation",
        HoldReason::NativeTurnFailed => "native_turn_failed",
        HoldReason::RepositoryCheckpointFailed => "repository_checkpoint_failed",
        HoldReason::OutOfScopeApprovalDrift => "out_of_scope_approval_drift",
        HoldReason::RepositoryObservationFailed => "repository_observation_failed",
        HoldReason::CancelledAfterDispatch => "cancelled_after_dispatch",
        HoldReason::CancellationFailed => "cancellation_failed",
        HoldReason::DeliveryUnknown => "delivery_unknown",
        HoldReason::WorkerHostFailed => "worker_host_failed",
    }
}

/// The durable key of what an event reports: an event with a key is recorded once.
pub open spec fn event_key(origin: EventOrigin) -> Seq<char> {
    match origin {
        EventOrigin::TaskFailed { task } => "task:"@ + uuid_form(task.0) + ":failed"@,
        EventOrigin::SessionBlocked { task } => "task:"@ + uuid_form(task.0)
            + ":session_blocked"@,
        EventOrigin::Question { message } => "question:"@ + uuid_form(message.0),
        EventOrigin::Result { task, revision } => "result:"@ + uuid_form(task.0) + ":"@ + decimal(
            revision as nat,
        ),
        EventOrigin::TurnSettlementHold { task } => "hold:"@ + uuid_form(task.0)
            + ":turn_settlement"@,
        EventOrigin::Hold { task, reason } => "hold:"@ + uuid_form(task.0) + ":"@
            + hold_reason_name(reason),
        EventOrigin::Delivery { message } => "delivery:"@ + uuid_form(message.0) + ":unknown"@,
        EventOrigin::GraphCompleted { watch } => "graph:"@ + uuid_form(watch.0) + ":completed"@,
    }
}

/// Writes the durable key of what an event reports.
pub fn write_event_key(origin: EventOrigin) -> (r: String)
    ensures
        r@ == event_key(origin),
{
    match origin {
        EventOrigin::TaskFailed { task } => {
            let id = uuid_text(task.0);
            join3("task:", id.as_str(), ":failed")
        },
        EventOrigin::SessionBlocked { task } => {
            let id = uuid_text(task.0);
            join3("task:", id.as_str(), ":session_blocked")
        },
        EventOrigin::Question { message } => {
            let id = uuid_text(message.0);
            join("question:", id.as_str())
        },
        EventOrigin::Result { task, revision } => {
            let id = uuid_text(task.0);
            let number = decimal_text(revision as u64);
            let mut r = join3("result:", id.as_str(), ":");
            r.append(number.as_str());
            r
        },
        EventOrigin::TurnSettlementHold { task } => {
            let id = uuid_text(task.0);
            join3("hold:", id.as_str(), ":turn_settlement")
        },
        EventOrigin::Hold { task, reason } => {
            let id = uuid_text(task.0);
            let mut r = join3("hold:", id.as_str(), ":");
            r.append(name_hold_reason(reason));
            r
        },
        EventOrigin::Delivery { message } => {
            let id = uuid_text(message.0);
            join3("delivery:", id.as_str(), ":unknown")
        },
        EventOrigin::GraphCompleted { watch } => {
            let id = uuid_text(watch.0);
            join3("graph:", id.as_str(), ":completed")
        },
    }
}

/// The words that go with the origin of an event; none where the event brings its own.
pub open spec fn fixed_summary(origin: EventOrigin) -> Option<Seq<char>> {
    match origin {
        EventOrigin::TaskFailed { .. } => Some(
            "Worker Task failed and requires Supervisor direction"@,
        ),
        EventOrigin::TurnSettlementHold { .. } => Some(
            "Repository Worktree Hold created while settling the Worker turn"@,
        ),
        EventOrigin::Hold { reason, .. } => Some(
            match reason {
                HoldReason::RepositoryObservationFailed => {
                    "Repository Worktree Hold created after observation failure"@
                },
                HoldReason::DeliveryUnknown => {
                    "Repository Worktree Hold created after ambiguous native delivery"@
                },
                HoldReason::WorkerHostFailed => {
                    "Repository Worktree Hold created after Worker Host failure"@
                },
                _ => "Repository Worktree Hold created: "@ + hold_reason_name(reason),
            },
        ),
        EventOrigin::GraphCompleted { .. } => Some(
            "All watched root Tasks reached review or a terminal state"@,
        ),
        _ => None,
    }
}

/// Writes the words that go with the origin of an event; none where the event brings its own.
pub fn summarize(origin: EventOrigin) -> (r: Option<String>)
    ensures
        match (r, fixed_summary(origin)) {
            (Some(text), Some(summary)) => text@ == summary,
            (None, None) => true,
            _ => false,
        },
{
    match origin {
        EventOrigin::TaskFailed { .. } => Some(
            "Worker Task failed and requires Supervisor direction".to_owned(),
        ),
        EventOrigin::TurnSettlementHold { .. } => Some(
            "Repository Worktree Hold created while settling the Worker turn".to_owned(),
        ),
        EventOrigin::Hold { reason, .. } => Some(
            match reason {
                HoldReason::RepositoryObservationFailed => {
                    "Repository Worktree Hold created after observation failure".to_owned()
                },
                HoldReason::DeliveryUnknown => {
                    "Repository Worktree Hold created after ambiguous native delivery".to_owned()
                },
                HoldReason::WorkerHostFailed => {
                    "Repository Worktree Hold created after Worker Host failure".to_owned()
                },
                _ => join("Repository Worktree Hold created: ", name_hold_reason(reason)),
            },
        ),
        EventOrigin::GraphCompleted { .. } => Some(
            "All watched root Tasks reached review or a terminal state".to_owned(),
        ),
        _ => None,
    }
}

/// The text of stored words; none where a number names nothing.
pub open spec fn wording(names: Seq<Seq<char>>, words: Wording) -> Option<Seq<char>> {
    match words {
        Wording::Given { text } => named(names, text),
        Wording::SelectionBlocked { reason, code } => match (
            named(names, reason),
            named(names, code),
        ) {
            (Some(reason), Some(code)) => Some(
                "Session selection blocked: "@ + reason + " ("@ + code + ")"@,
            ),
            _ => None,
        },
        Wording::SupervisorLeaseExpired => Some("managed Supervisor presence lease expired"@),
        Wording::DispatchLeaseExpired => Some(
            "Worker Host presence expired during native Task dispatch"@,
        ),
        Wording::WorkerLeaseExpired => Some(
            "Worker Host presence lease expired without a clean disconnect"@,
        ),
        Wording::SupervisorDisconnected => Some("managed Supervisor disconnected"@),
        Wording::SupervisorDisconnectedDispatching => Some(
            "managed Supervisor disconnected during native dispatch"@,
        ),
        Wording::SupervisorReconnected => Some(
            "managed Supervisor reconnected before native acceptance was recorded"@,
        ),
        Wording::HostStopped { clean } => Some(
            if clean {
                "Worker Host stopped cleanly"@
            } else {
                "Worker Host stopped without clean provider shutdown"@
            },
        ),
        Wording::Superseded => Some("superseded by a newer Host generation"@),
        Wording::SettlementPending => Some("presence lease expired; settlement pending"@),
        Wording::SettlementComplete => Some("presence lease expired; settlement complete"@),
        Wording::SettlementOvertaken => Some(
            "presence lease settlement already completed or superseded"@,
        ),
    }
}

/// Writes stored words.
pub fn write_wording(names: &NameTable, words: Wording) -> (r: Option<String>)
    ensures
        optional_text(r) == wording(names@, words),
{
    match words {
        Wording::Given { text } => match names.name(text) {
            Some(text) => Some(text.to_owned()),
            None => None,
        },
        Wording::SelectionBlocked { reason, code } => match (names.name(reason), names.name(code)) {
            (Some(reason), Some(code)) => {
                let head = join3("Session selection blocked: ", reason, " (");
                Some(join3(head.as_str(), code, ")"))
            },
            _ => None,
        },
        Wording::SupervisorLeaseExpired => Some(
            "managed Supervisor presence lease expired".to_owned(),
        ),
        Wording::DispatchLeaseExpired => Some(
            "Worker Host presence expired during native Task dispatch".to_owned(),
        ),
        Wording::WorkerLeaseExpired => Some(
            "Worker Host presence lease expired without a clean disconnect".to_owned(),
        ),
        Wording::SupervisorDisconnected => Some("managed Supervisor disconnected".to_owned()),
        Wording::SupervisorDisconnectedDispatching => Some(
            "managed Supervisor disconnected during native dispatch".to_owned(),
        ),
        Wording::SupervisorReconnected => Some(
            "managed Supervisor reconnected before native acceptance was recorded".to_owned(),
        ),
        Wording::HostStopped { clean } => Some(
            if clean {
                "Worker Host stopped cleanly".to_owned()
            } else {
                "Worker Host stopped without clean provider shutdown".to_owned()
            },
        ),
        Wording::Superseded => Some("superseded by a newer Host generation".to_owned()),
        Wording::SettlementPending => Some("presence lease expired; settlement pending".to_owned()),
        Wording::SettlementComplete => Some(
            "presence lease expired; settlement complete".to_owned(),
        ),
        Wording::SettlementOvertaken => Some(
            "presence lease settlement already completed or superseded".to_owned(),
        ),
    }
}

/// What an event says.
pub open spec fn event_summary(names: Seq<Seq<char>>, e: EventRow) -> Option<Seq<char>> {
    match e.summary {
        Some(words) => wording(names, words),
        None => fixed_summary(e.origin),
    }
}

/// Writes what an event says.
pub fn write_event_summary(names: &NameTable, e: EventRow) -> (r: Option<String>)
    ensures
        optional_text(r) == event_summary(names@, e),
{
    match e.summary {
        Some(words) => write_wording(names, words),
        None => summarize(e.origin),
    }
}

// ---------------------------------------------------------------------------------------------
// Laws
// ---------------------------------------------------------------------------------------------

/// No two reasons share a persisted name.
pub proof fn hold_reason_names_differ(a: HoldReason, b: HoldReason)
    requires
        hold_reason_name(a) == hold_reason_name(b),
    ensures
        a == b,
{
    reveal_strlit("out_of_scope_mutation");
    assert("out_of_scope_mutation"@.len() == 21);
    reveal_strlit("native_turn_failed");
    assert("native_turn_failed"@.len() == 18);
    reveal_strlit("repository_checkpoint_failed");
    assert("repository_checkpoint_failed"@.len() == 28);
    reveal_strlit("out_of_scope_approval_drift");
    assert("out_of_scope_approval_drift"@.len() == 27);
    reveal_strlit("repository_observation_failed");
    assert("repository_observation_failed"@.len() == 29);
    reveal_strlit("cancelled_after_dispatch");
    assert("cancelled_after_dispatch"@.len() == 24);
    reveal_strlit("cancellation_failed");
    assert("cancellation_failed"@.len() == 19);
    reveal_strlit("delivery_unknown");
    assert("delivery_unknown"@.len() == 16);
    reveal_strlit("worker_host_failed");
    assert("worker_host_failed"@.len() == 18);
    assert("native_turn_failed"@[0] == 'n' && "worker_host_failed"@[0] == 'w');
}

/// How the key of an event is made: what it is about, the identity of that, and what happened.
pub open spec fn key_parts(origin: EventOrigin) -> (Seq<char>, Seq<char>, Seq<char>) {
    match origin {
        EventOrigin::TaskFailed { task } => ("task:"@, uuid_form(task.0), ":failed"@),
        EventOrigin::SessionBlocked { task } => (
            "task:"@,
            uuid_form(task.0),
            ":session_blocked"@,
        ),
        EventOrigin::Question { message } => ("question:"@, uuid_form(message.0), ""@),
        EventOrigin::Result { task, revision } => (
            "result:"@,
            uuid_form(task.0),
            ":"@ + decimal(revision as nat),
        ),
        EventOrigin::TurnSettlementHold { task } => (
            "hold:"@,
            uuid_form(task.0),
            ":turn_settlement"@,
        ),
        EventOrigin::Hold { task, reason } => (
            "hold:"@,
            uuid_form(task.0),
            ":"@ + hold_reason_name(reason),
        ),
        EventOrigin::Delivery { message } => ("delivery:"@, uuid_form(message.0), ":unknown"@),
        EventOrigin::GraphCompleted { watch } => ("graph:"@, uuid_form(watch.0), ":completed"@),
    }
}

proof fn key_has_parts(origin: EventOrigin)
    ensures
        event_key(origin) == key_parts(origin).0 + key_parts(origin).1 + key_parts(origin).2,
{
    reveal_strlit("");
    assert(event_key(origin) =~= key_parts(origin).0 + key_parts(origin).1 + key_parts(origin).2);
}

/// The key of an event says what it reports: events with one key report the same.
pub proof fn event_keys_identify(a: EventOrigin, b: EventOrigin)
    requires
        event_key(a) == event_key(b),
    ensures
        a == b,
{
    key_has_parts(a);
    key_has_parts(b);
    let (head_a, id_a, tail_a) = key_parts(a);
    let (head_b, id_b, tail_b) = key_parts(b);
    reveal_strlit("task:");
    reveal_strlit("question:");
    reveal_strlit("result:");
    reveal_strlit("hold:");
    reveal_strlit("delivery:");
    reveal_strlit("graph:");
    assert("task:"@[0] == 't' && "question:"@[0] == 'q' && "result:"@[0] == 'r');
    assert("hold:"@[0] == 'h' && "delivery:"@[0] == 'd' && "graph:"@[0] == 'g');
    assert(event_key(a)[0] == head_a[0] && event_key(b)[0] == head_b[0]);
    assert(head_a == head_b);
    assert(id_a.len() == 36 && id_b.len() == 36);
    parts_agree(head_a, id_a, tail_a, id_b, tail_b);
    reveal_strlit(":failed");
    reveal_strlit(":session_blocked");
    reveal_strlit(":turn_settlement");
    reveal_strlit(":");
    assert(":failed"@.len() == 7 && ":session_blocked"@.len() == 16);
    assert(":turn_settlement"@.len() == 16 && ":"@.len() == 1);
    tails_agree(a, b);
}

/// What happened to one thing is told apart by the end of the key.
proof fn tails_agree(a: EventOrigin, b: EventOrigin)
    requires
        key_parts(a).0 == key_parts(b).0,
        key_parts(a).0[0] == key_parts(b).0[0],
        key_parts(a).1 == key_parts(b).1,
        key_parts(a).2 == key_parts(b).2,
    ensures
        a == b,
{
    reveal_strlit("task:");
    reveal_strlit("question:");
    reveal_strlit("result:");
    reveal_strlit("hold:");
    reveal_strlit("delivery:");
    reveal_strlit("graph:");
    assert("task:"@[0] == 't' && "question:"@[0] == 'q' && "result:"@[0] == 'r');
    assert("hold:"@[0] == 'h' && "delivery:"@[0] == 'd' && "graph:"@[0] == 'g');
    reveal_strlit(":failed");
    reveal_strlit(":session_blocked");
    reveal_strlit(":turn_settlement");
    reveal_strlit(":");
    assert(":failed"@.len() == 7 && ":session_blocked"@.len() == 16);
    assert(":turn_settlement"@.len() == 16 && ":"@.len() == 1);
    match (a, b) {
        (EventOrigin::TaskFailed { task: x }, EventOrigin::TaskFailed { task: y }) => {
            written_identities_differ(x.0, y.0);
        },
        (EventOrigin::SessionBlocked { task: x }, EventOrigin::SessionBlocked { task: y }) => {
            written_identities_differ(x.0, y.0);
        },
        (EventOrigin::Question { message: x }, EventOrigin::Question { message: y }) => {
            written_identities_differ(x.0, y.0);
        },
        (
            EventOrigin::Result { task: x, revision: m },
            EventOrigin::Result { task: y, revision: n },
        ) => {
            written_identities_differ(x.0, y.0);
            assert((":"@ + decimal(m as nat)).skip(1) =~= decimal(m as nat));
            assert((":"@ + decimal(n as nat)).skip(1) =~= decimal(n as nat));
            decimals_differ(m as nat, n as nat);
        },
        (
            EventOrigin::TurnSettlementHold { task: x },
            EventOrigin::TurnSettlementHold { task: y },
        ) => {
            written_identities_differ(x.0, y.0);
        },
        (EventOrigin::Hold { task: x, reason: m }, EventOrigin::Hold { task: y, reason: n }) => {
            written_identities_differ(x.0, y.0);
            assert((":"@ + hold_reason_name(m)).skip(1) =~= hold_reason_name(m));
            assert((":"@ + hold_reason_name(n)).skip(1) =~= hold_reason_name(n));
            hold_reason_names_differ(m, n);
        },
        (EventOrigin::Delivery { message: x }, EventOrigin::Delivery { message: y }) => {
            written_identities_differ(x.0, y.0);
        },
        (EventOrigin::GraphCompleted { watch: x }, EventOrigin::GraphCompleted { watch: y }) => {
            written_identities_differ(x.0, y.0);
        },
        (EventOrigin::TurnSettlementHold { .. }, EventOrigin::Hold { reason, .. }) => {
            settlement_is_no_reason(reason);
        },
        (EventOrigin::Hold { reason, .. }, EventOrigin::TurnSettlementHold { .. }) => {
            settlement_is_no_reason(reason);
        },
        _ => {},
    }
}

proof fn settlement_is_no_reason(reason: HoldReason)
    ensures
        ":"@ + hold_reason_name(reason) != ":turn_settlement"@,
{
    reveal_strlit(":");
    reveal_strlit(":turn_settlement");
    assert(":turn_settlement"@.len() == 16 && ":"@.len() == 1);
    reveal_strlit("out_of_scope_mutation");
    assert("out_of_scope_mutation"@.len() == 21);
    reveal_strlit("native_turn_failed");
    assert("native_turn_failed"@.len() == 18);
    reveal_strlit("repository_checkpoint_failed");
    assert("repository_checkpoint_failed"@.len() == 28);
    reveal_strlit("out_of_scope_approval_drift");
    assert("out_of_scope_approval_drift"@.len() == 27);
    reveal_strlit("repository_observation_failed");
    assert("repository_observation_failed"@.len() == 29);
    reveal_strlit("cancelled_after_dispatch");
    assert("cancelled_after_dispatch"@.len() == 24);
    reveal_strlit("cancellation_failed");
    assert("cancellation_failed"@.len() == 19);
    reveal_strlit("delivery_unknown");
    assert("delivery_unknown"@.len() == 16);
    reveal_strlit("worker_host_failed");
    assert("worker_host_failed"@.len() == 18);
    assert((":"@ + hold_reason_name(reason)).len() != 16);
}

} // verus!

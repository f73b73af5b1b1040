//! How Hosts deliver, cancel and show work.
use vstd::prelude::*;

use crate::adapter::{AdapterFault, AdapterLifecycle, NativeDeliveryKind, NativeTurnStatus};
use crate::contract::{DeliveryIntent, HarnessKind, SupervisorEventKind, TaskState};
use crate::digest::digest_form;
use crate::host::{
    cancel_step, delivery_kind, event_step, harness_line, hold_line, lines, message_line,
    overdue_at, popup_text, profile_refusal, state_word, task_line, tier_word, turn_report,
    CANCELLATION_LIMIT, CancelStep, EventKind, EventStep, TurnReport, WorkerHost,
};
use crate::identity::{uuid_form, TaskId};
use crate::supervisor_host::{
    attachment_forms, bullet, bullets, enriched, injection, kind_word, or_none, payload, receptive,
    verification_bullet, verification_bullets, ResultSummary, SupervisorEvent,
};
use crate::text::{contains_text, decimal, joined, signed_decimal, stands_at};
use crate::views::{HarnessStatusView, HoldView, InboxMessageView, TaskView};

verus! {

// ---------------------------------------------------------------------------------------------
// Deliveries
// ---------------------------------------------------------------------------------------------

/// Steering always steers. A follow-up starts a turn unless the provider works; while it works, it
/// is queued where the provider can do that, and waits otherwise.
pub proof fn messages_reach_the_provider(
    intent: DeliveryIntent,
    lifecycle: AdapterLifecycle,
    queues: bool,
)
    ensures
        delivery_kind(intent, lifecycle, queues) is None <==> intent == DeliveryIntent::FollowUp
            && lifecycle == AdapterLifecycle::Working && !queues,
        intent == DeliveryIntent::Steer <==> delivery_kind(intent, lifecycle, queues) == Some(
            NativeDeliveryKind::Steer,
        ),
        delivery_kind(intent, lifecycle, queues) == Some(NativeDeliveryKind::StartTurn) ==> lifecycle
            != AdapterLifecycle::Working,
        delivery_kind(intent, lifecycle, queues) == Some(NativeDeliveryKind::FollowUp) ==> lifecycle
            == AdapterLifecycle::Working && queues,
{
}

/// An event goes into the Supervisor's provider by steering only where its turn can be steered, and
/// starts a turn exactly where the provider is idle; only a provider that queues input takes one
/// while it works.
pub proof fn events_reach_the_supervisor(
    kind: HarnessKind,
    steer: bool,
    steerable: bool,
    lifecycle: AdapterLifecycle,
)
    ensures
        injection(kind, steer, steerable, lifecycle) is Err <==> steer && !steerable,
        injection(kind, steer, steerable, lifecycle) == Ok::<NativeDeliveryKind, AdapterFault>(
            NativeDeliveryKind::Steer,
        ) <==> steer && steerable,
        injection(kind, steer, steerable, lifecycle) == Ok::<NativeDeliveryKind, AdapterFault>(
            NativeDeliveryKind::StartTurn,
        ) <==> !steer && lifecycle == AdapterLifecycle::Idle,
        lifecycle == AdapterLifecycle::Idle ==> receptive(kind, lifecycle),
        lifecycle == AdapterLifecycle::Working ==> receptive(kind, lifecycle) == (kind
            == HarnessKind::Omp),
        lifecycle != AdapterLifecycle::Idle && lifecycle != AdapterLifecycle::Working
            ==> !receptive(kind, lifecycle),
{
}

// ---------------------------------------------------------------------------------------------
// Turns and cancellations
// ---------------------------------------------------------------------------------------------

/// A turn of a Task that is being cancelled settles the cancellation, which succeeded unless the
/// turn failed; any other turn succeeded only where it was completed.
pub proof fn ended_turns_are_reported(
    host: WorkerHost,
    task: TaskId,
    state: TaskState,
    status: NativeTurnStatus,
)
    ensures
        state == TaskState::Cancelling ==> turn_report(host, task, state, status).0 == (
        TurnReport::Cancellation {
            task,
            succeeded: status == NativeTurnStatus::Completed || status
                == NativeTurnStatus::Interrupted,
        }) && turn_report(host, task, state, status).1.cancelling is None,
        state != TaskState::Cancelling ==> turn_report(host, task, state, status).0 == (
        TurnReport::Turn { task, succeeded: status == NativeTurnStatus::Completed })
            && turn_report(host, task, state, status).1 == host,
{
}

/// A Task that is to be cancelled is interrupted where it is the one that the provider works on,
/// and confirmed as cancelled where it is not; the time runs from the interruption, and the
/// cancellation is overdue once it took too long, and not before.
pub proof fn cancellations_interrupt_the_current_task(
    host: WorkerHost,
    task: TaskId,
    now: u64,
    later: u64,
)
    requires
        host.cancelling is None,
        now + CANCELLATION_LIMIT <= u64::MAX,
        now <= later,
    ensures
        ({
            let (step, after) = cancel_step(host, Some(task), now);
            &&& host.current == Some(task) ==> step == (CancelStep::Interrupt { task })
                && overdue_at(after, later) == if later - now >= CANCELLATION_LIMIT {
                Some(task)
            } else {
                None
            }
            &&& host.current != Some(task) ==> step == (CancelStep::Confirm { task }) && after == host
            &&& cancel_step(host, None, now) == (CancelStep::Nothing, host)
        }),
{
}

/// The end of a turn settles the Task that the Host works on and frees it; every event is counted,
/// and a provider that is gone stops the Host.
pub proof fn events_settle_the_current_task(host: WorkerHost, kind: EventKind)
    ensures
        ({
            let (step, after) = event_step(host, kind);
            &&& host.sequence < u64::MAX ==> after.sequence == host.sequence + 1
            &&& kind == EventKind::Gone <==> step == EventStep::Stop
            &&& kind == EventKind::TurnCompleted && host.current is Some ==> step == (
            EventStep::Settle { task: host.current->0 }) && after.current is None
            &&& kind != EventKind::TurnCompleted || host.current is None ==> after.current
                == host.current
            &&& after.cancelling == host.cancelling
        }),
{
}

/// A Worker Session is hosted exactly where its profile is on record under the digest of its text.
pub proof fn hosted_profiles_are_unaltered(snapshot: Option<Seq<char>>, digest: Option<Seq<char>>)
    ensures
        profile_refusal(snapshot, digest) is None <==> snapshot is Some && digest is Some
            && digest_form(vstd::utf8::encode_utf8(snapshot->0)) == digest->0,
{
}

// ---------------------------------------------------------------------------------------------
// What is shown
// ---------------------------------------------------------------------------------------------

proof fn parts_stay(a: Seq<char>, b: Seq<char>, part: Seq<char>)
    ensures
        contains_text(a, part) ==> contains_text(a + b, part),
        contains_text(b, part) ==> contains_text(a + b, part),
        contains_text(part, part),
{
    let s = a + b;
    if contains_text(a, part) {
        let at = choose|at: int| stands_at(a, part, at);
        assert(s.subrange(at, at + part.len() as int) =~= a.subrange(at, at + part.len() as int));
        assert(stands_at(s, part, at));
    }
    if contains_text(b, part) {
        let at = choose|at: int| stands_at(b, part, at);
        let k = a.len() + at;
        assert(s.subrange(k, k + part.len() as int) =~= b.subrange(at, at + part.len() as int));
        assert(stands_at(s, part, k));
    }
    assert(part.subrange(0, part.len() as int) =~= part);
    assert(stands_at(part, part, 0));
}

proof fn lines_stand_in_their_list<A>(
    rows: Seq<A>,
    line: spec_fn(A) -> Seq<char>,
    n: nat,
    i: int,
)
    requires
        0 <= i < n <= rows.len(),
    ensures
        contains_text(lines(rows, line, n), line(rows[i])),
    decreases n,
{
    let before = lines(rows, line, (n - 1) as nat);
    parts_stay(before, line(rows[n - 1]), line(rows[i]));
    if i < n - 1 {
        lines_stand_in_their_list(rows, line, (n - 1) as nat, i);
    }
}

/// The popup shows a line for every Harness, Task, Message and Hold: a Harness with a mark for
/// whether it is online and the number of its unread Messages, a Task with its Worker, its state
/// and its revision, a Message with its sender and how far it got, and a Hold with its reason.
pub proof fn the_popup_shows_every_row(
    status: Seq<HarnessStatusView>,
    tasks: Seq<TaskView>,
    inbox: Seq<InboxMessageView>,
    holds: Seq<HoldView>,
    i: int,
)
    ensures
        ({
            let shown = popup_text(status, tasks, inbox, holds);
            &&& 0 <= i < status.len() ==> contains_text(
                shown,
                (if status[i].presence@ == "online"@ {
                    "● "@
                } else {
                    "○ "@
                }) + status[i].id@ + " · "@ + tier_word(status[i].tier) + " · "@
                    + status[i].activity@ + " · inbox "@ + decimal(
                    status[i].unread_messages as nat,
                ) + "\n"@,
            )
            &&& 0 <= i < tasks.len() ==> contains_text(
                shown,
                uuid_form(tasks[i].id.0) + " · "@ + tasks[i].worker_id@ + " · "@ + state_word(
                    tasks[i].state,
                ) + " · revision "@ + decimal(tasks[i].result_revision as nat) + "\n"@,
            )
            &&& 0 <= i < inbox.len() && inbox[i].delivery_state is Some ==> contains_text(
                shown,
                uuid_form(inbox[i].id.0) + " · "@ + inbox[i].sender_id@ + " · "@ + inbox[i].kind@
                    + " · "@ + inbox[i].delivery_state->0@ + "\n"@,
            )
            &&& 0 <= i < inbox.len() && inbox[i].delivery_state is None ==> contains_text(
                shown,
                uuid_form(inbox[i].id.0) + " · "@ + inbox[i].sender_id@ + " · "@ + inbox[i].kind@
                    + " · "@ + "pending"@ + "\n"@,
            )
            &&& 0 <= i < holds.len() ==> contains_text(
                shown,
                uuid_form(holds[i].task_id.0) + " · "@ + holds[i].repository_key@ + " · "@
                    + holds[i].reason@ + "\n"@,
            )
        }),
{
    let h = |h: HarnessStatusView| harness_line(h);
    let t = |t: TaskView| task_line(t);
    let x = |x: InboxMessageView| message_line(x);
    let w = |h: HoldView| hold_line(h);
    let a = "Harness Network\n\n"@;
    let b = a + lines(status, h, status.len());
    let c = b + "\nTasks\n"@;
    let d = c + lines(tasks, t, tasks.len());
    let e = d + "\nInbox\n"@;
    let f = e + lines(inbox, x, inbox.len());
    let g = if holds.len() == 0 {
        Seq::empty()
    } else {
        "\nWorktree Holds\n"@ + lines(holds, w, holds.len())
    };
    assert(popup_text(status, tasks, inbox, holds) == f + g);
    if 0 <= i < status.len() {
        let part = harness_line(status[i]);
        lines_stand_in_their_list(status, h, status.len(), i);
        parts_stay(a, lines(status, h, status.len()), part);
        parts_stay(b, "\nTasks\n"@, part);
        parts_stay(c, lines(tasks, t, tasks.len()), part);
        parts_stay(d, "\nInbox\n"@, part);
        parts_stay(e, lines(inbox, x, inbox.len()), part);
        parts_stay(f, g, part);
    }
    if 0 <= i < tasks.len() {
        let part = task_line(tasks[i]);
        lines_stand_in_their_list(tasks, t, tasks.len(), i);
        parts_stay(c, lines(tasks, t, tasks.len()), part);
        parts_stay(d, "\nInbox\n"@, part);
        parts_stay(e, lines(inbox, x, inbox.len()), part);
        parts_stay(f, g, part);
    }
    if 0 <= i < inbox.len() {
        let part = message_line(inbox[i]);
        lines_stand_in_their_list(inbox, x, inbox.len(), i);
        parts_stay(e, lines(inbox, x, inbox.len()), part);
        parts_stay(f, g, part);
    }
    if 0 <= i < holds.len() {
        let part = hold_line(holds[i]);
        lines_stand_in_their_list(holds, w, holds.len(), i);
        parts_stay("\nWorktree Holds\n"@, lines(holds, w, holds.len()), part);
        parts_stay(f, g, part);
    }
}

/// The words for states, and those for kinds of events, are told apart.
pub proof fn shown_words_differ(
    a: TaskState,
    b: TaskState,
    x: SupervisorEventKind,
    y: SupervisorEventKind,
)
    ensures
        state_word(a) == state_word(b) ==> a == b,
        kind_word(x) == kind_word(y) ==> x == y,
{
    reveal_strlit("Queued");
    reveal_strlit("Dispatching");
    reveal_strlit("Working");
    reveal_strlit("Waiting");
    reveal_strlit("Reviewing");
    reveal_strlit("Cancelling");
    reveal_strlit("DeliveryUnknown");
    reveal_strlit("Approved");
    reveal_strlit("Cancelled");
    reveal_strlit("Failed");
    reveal_strlit("BlockingQuestion");
    reveal_strlit("ResultReady");
    reveal_strlit("TaskFailed");
    reveal_strlit("WorktreeHoldCreated");
    reveal_strlit("TaskGraphCompleted");
    reveal_strlit("Notification");
    assert("Queued"@.len() == 6);
    assert("Dispatching"@.len() == 11);
    assert("Working"@.len() == 7);
    assert("Waiting"@.len() == 7);
    assert("Reviewing"@.len() == 9);
    assert("Cancelling"@.len() == 10);
    assert("DeliveryUnknown"@.len() == 15);
    assert("Approved"@.len() == 8);
    assert("Cancelled"@.len() == 9);
    assert("Failed"@.len() == 6);
    assert("BlockingQuestion"@.len() == 16);
    assert("ResultReady"@.len() == 11);
    assert("TaskFailed"@.len() == 10);
    assert("WorktreeHoldCreated"@.len() == 19);
    assert("TaskGraphCompleted"@.len() == 18);
    assert("Notification"@.len() == 12);
    assert("Queued"@[0] == 'Q' && "Failed"@[0] == 'F');
    assert("Working"@[1] == 'o' && "Waiting"@[1] == 'a');
    assert("Reviewing"@[0] == 'R' && "Cancelled"@[0] == 'C');
}

proof fn listed_texts_stand_in_the_list(list: Seq<Seq<char>>, separator: Seq<char>, i: int)
    requires
        0 <= i < list.len(),
    ensures
        contains_text(joined(list, separator), list[i]),
    decreases list.len(),
{
    if list.len() == 1 {
        parts_stay(list[0], Seq::empty(), list[0]);
    } else {
        let d = list.drop_last();
        let head = joined(d, separator);
        parts_stay(head, separator, list[i]);
        parts_stay(head + separator, list.last(), list[i]);
        if i < d.len() {
            assert(d[i] == list[i]);
            listed_texts_stand_in_the_list(d, separator, i);
        }
    }
}

/// An event is put to the Supervisor with its identity, its kind, its Task, its revision, its
/// summary and every Attachment.
pub proof fn events_are_put_in_full(event: SupervisorEvent, i: int)
    ensures
        contains_text(payload(event), "Event ID: "@ + uuid_form(event.id.0)),
        contains_text(payload(event), "\nKind: "@ + kind_word(event.kind)),
        event.task_id is Some ==> contains_text(
            payload(event),
            "\nTask: "@ + uuid_form((event.task_id->0).0),
        ),
        event.result_revision is Some ==> contains_text(
            payload(event),
            "\nResult revision: "@ + decimal(event.result_revision->0 as nat),
        ),
        contains_text(payload(event), "\n\nSummary:\n"@ + event.summary@),
        0 <= i < event.attachments@.len() ==> contains_text(
            payload(event),
            uuid_form(event.attachments@[i].0),
        ),
{
    let first = "Coordinator Supervisor event\n\nEvent ID: "@;
    let id = uuid_form(event.id.0);
    let k = "\nKind: "@ + kind_word(event.kind);
    let task = match event.task_id {
        Some(id) => uuid_form(id.0),
        None => "none"@,
    };
    let t = "\nTask: "@ + task;
    let revision = match event.result_revision {
        Some(n) => decimal(n as nat),
        None => "none"@,
    };
    let r = "\nResult revision: "@ + revision;
    let s = "\n\nSummary:\n"@ + event.summary@;
    let listed = or_none(joined(attachment_forms(event.attachments@), ", "@));
    let f = "\n\nAttachments: "@ + listed;
    let last = "\n\nRequired action:\nProcess this event using the Coordinator tools, then acknowledge it explicitly or through the matching Reply, Correction, Approval, or reconciliation command."@;
    let a = first + id;
    let b = a + k;
    let c = b + t;
    let d = c + r;
    let e = d + s;
    let g = e + f;
    assert(payload(event) =~= g + last);
    let own = "Event ID: "@ + id;
    assert(contains_text(a, own)) by {
        reveal_strlit("Coordinator Supervisor event\n\nEvent ID: ");
        reveal_strlit("Event ID: ");
        let head = first.take(30);
        assert(first =~= head + "Event ID: "@);
        assert(a =~= head + own);
        parts_stay(head, own, own);
    }
    parts_stay(a, k, own);
    parts_stay(a, k, k);
    parts_stay(b, t, own);
    parts_stay(b, t, k);
    parts_stay(b, t, t);
    parts_stay(c, r, own);
    parts_stay(c, r, k);
    parts_stay(c, r, t);
    parts_stay(c, r, r);
    parts_stay(d, s, own);
    parts_stay(d, s, k);
    parts_stay(d, s, t);
    parts_stay(d, s, r);
    parts_stay(d, s, s);
    parts_stay(e, f, own);
    parts_stay(e, f, k);
    parts_stay(e, f, t);
    parts_stay(e, f, r);
    parts_stay(e, f, s);
    parts_stay(g, last, own);
    parts_stay(g, last, k);
    parts_stay(g, last, t);
    parts_stay(g, last, r);
    parts_stay(g, last, s);
    parts_stay(k, k, k);
    parts_stay(t, t, t);
    parts_stay(r, r, r);
    parts_stay(s, s, s);
    if 0 <= i < event.attachments@.len() {
        let forms = attachment_forms(event.attachments@);
        let one = uuid_form(event.attachments@[i].0);
        assert(forms[i] == one);
        listed_texts_stand_in_the_list(forms, ", "@, i);
        assert(one.len() == 36);
        assert(joined(forms, ", "@).len() > 0) by {
            let at = choose|at: int| stands_at(joined(forms, ", "@), one, at);
            assert(at + one.len() <= joined(forms, ", "@).len());
        }
        parts_stay("\n\nAttachments: "@, listed, one);
        parts_stay(e, f, one);
        parts_stay(g, last, one);
    }
}

/// A Result is told with its Worker, its summary, every changed file, every verification with
/// whether it passed and its exit code, and every risk.
pub proof fn results_are_told_in_full(s: ResultSummary, i: int)
    ensures
        contains_text(enriched(s), "Worker: "@ + s.worker@),
        contains_text(enriched(s), "\n\nSummary:\n"@ + s.summary@),
        0 <= i < s.changed_files@.len() ==> contains_text(
            enriched(s),
            "- "@ + s.changed_files@[i]@,
        ),
        0 <= i < s.verification@.len() ==> contains_text(
            enriched(s),
            "- "@ + s.verification@[i].command@ + ": "@ + (if s.verification@[i].passed {
                "passed"@
            } else {
                "failed"@
            }) + " (exit "@ + signed_decimal(s.verification@[i].exit_code as int) + ")"@,
        ),
        0 <= i < s.risks@.len() ==> contains_text(enriched(s), "- "@ + s.risks@[i]@),
{
    let files = joined(bullets(s.changed_files@), "\n"@);
    let a = "Worker: "@ + s.worker@;
    let p = "\n\nSummary:\n"@ + s.summary@;
    let b = a + p;
    let shown = if files.len() == 0 {
        "- None"@
    } else {
        files
    };
    let q = "\n\nChanged files:\n"@ + shown;
    let c = b + q;
    let checks = joined(verification_bullets(s.verification@), "\n"@);
    let r = "\n\nVerification:\n"@ + checks;
    let d = c + r;
    let risks = if s.risks@.len() == 0 {
        "- None reported"@
    } else {
        joined(bullets(s.risks@), "\n"@)
    };
    let u = "\n\nRisks:\n"@ + risks;
    assert(enriched(s) =~= d + u);
    parts_stay(a, p, a);
    parts_stay(a, a, a);
    parts_stay(p, p, p);
    parts_stay(a, p, p);
    parts_stay(b, q, a);
    parts_stay(b, q, p);
    parts_stay(c, r, a);
    parts_stay(c, r, p);
    parts_stay(d, u, a);
    parts_stay(d, u, p);
    if 0 <= i < s.changed_files@.len() {
        let one = bullet(s.changed_files@[i]@);
        let list = bullets(s.changed_files@);
        assert(list[i] == one);
        listed_texts_stand_in_the_list(list, "\n"@, i);
        reveal_strlit("- ");
        assert(one.len() >= 2);
        assert(files.len() > 0) by {
            let at = choose|at: int| stands_at(files, one, at);
            assert(at + one.len() <= files.len());
        }
        parts_stay("\n\nChanged files:\n"@, shown, one);
        parts_stay(b, q, one);
        parts_stay(c, r, one);
        parts_stay(d, u, one);
    }
    if 0 <= i < s.verification@.len() {
        let one = verification_bullet(s.verification@[i]);
        let list = verification_bullets(s.verification@);
        assert(list[i] == one);
        listed_texts_stand_in_the_list(list, "\n"@, i);
        parts_stay("\n\nVerification:\n"@, checks, one);
        parts_stay(c, r, one);
        parts_stay(d, u, one);
    }
    if 0 <= i < s.risks@.len() {
        let one = bullet(s.risks@[i]@);
        let list = bullets(s.risks@);
        assert(list[i] == one);
        listed_texts_stand_in_the_list(list, "\n"@, i);
        parts_stay("\n\nRisks:\n"@, risks, one);
        parts_stay(d, u, one);
    }
}

} // verus!

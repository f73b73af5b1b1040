//! What the network shows of itself: unread Messages, inboxes, Harnesses, Tasks in line and Holds.
use vstd::prelude::*;

use crate::contract::{
    Activity, MessageKind, Presence, SupervisorEventKind, TaskSchedulingState, TaskState,
};
use crate::identity::{AttachmentId, MessageId, TaskId};
use crate::ledger::{
    held, is_active_hold_on, is_attempt_of, is_live_session_of, is_message, is_task, occupies,
    record_transition_frame, Model,
};
use crate::ledger::accounts::{accountable, accounts, grounded, knows};
use crate::ledger::binding::is_current_binding;
use crate::ledger::create::KeyedRequest;
use crate::ledger::dispatch::in_line;
use crate::ledger::frames::mark_read_frame;
use crate::ledger::messages::{posted, send_message, NewMessage};
use crate::ledger::queries::{
    addressed, current_binding, graph_row, harness_status, inbox, inbox_row, is_foreign_lease,
    is_unread, is_waiting_for, mark_inbox_read, mark_read_upto, unread_count, GraphRow,
};
use crate::ledger::readback_laws::sent_messages_are_stored;
use crate::ledger::route_laws::is_new;
use crate::ledger::shutdown::is_active_hold;
use crate::ledger::steps::{is_read, process_events_upto};
use crate::rows::{
    AuthenticatedActor, HarnessKey, HarnessRow, HoldRow, MessageRow, StoredMessageKind, TaskRow,
    TransitionReason,
};
use crate::select::{
    count_step, count_where, first_found, first_missing, first_says, first_where, keep_where,
    last_found, last_missing, last_says, some_where,
};

verus! {

// ---------------------------------------------------------------------------------------------
// Rows
// ---------------------------------------------------------------------------------------------

/// A Harness marked a Message as read.
pub open spec fn has_read(m: Model, harness: HarnessKey, id: MessageId) -> bool {
    exists|r: int|
        0 <= r < m.reads.len() && (#[trigger] m.reads[r]).harness == harness && m.reads[r].message
            == id
}

proof fn marks_are_found(m: Model, harness: HarnessKey, id: MessageId)
    ensures
        some_where(m.reads, is_read(harness, id)) == has_read(m, harness, id),
{
    if has_read(m, harness, id) {
        let r = choose|r: int|
            0 <= r < m.reads.len() && (#[trigger] m.reads[r]).harness == harness
                && m.reads[r].message == id;
        assert(is_read(harness, id)(m.reads[r]));
    }
    if some_where(m.reads, is_read(harness, id)) {
        let r = choose|r: int|
            0 <= r < m.reads.len() && is_read(harness, id)(#[trigger] m.reads[r]);
        assert(m.reads[r].harness == harness && m.reads[r].message == id);
    }
}

/// A Task in one of the six states in which it occupies its Worker.
pub open spec fn is_busy_with(t: TaskRow, worker: HarnessKey) -> bool {
    t.worker == worker && (t.state == TaskState::Dispatching || t.state == TaskState::Working
        || t.state == TaskState::Waiting || t.state == TaskState::Reviewing || t.state
        == TaskState::Cancelling || t.state == TaskState::DeliveryUnknown)
}

// ---------------------------------------------------------------------------------------------
// Counting
// ---------------------------------------------------------------------------------------------

proof fn same_choices_count_alike<A>(s: Seq<A>, p: spec_fn(A) -> bool, q: spec_fn(A) -> bool)
    requires
        forall|i: int| 0 <= i < s.len() ==> p(#[trigger] s[i]) == q(s[i]),
    ensures
        count_where(s, p) == count_where(s, q),
    decreases s.len(),
{
    if s.len() > 0 {
        assert(p(s[s.len() - 1]) == q(s[s.len() - 1]));
        assert forall|i: int| 0 <= i < s.drop_last().len() implies p(#[trigger] s.drop_last()[i])
            == q(s.drop_last()[i]) by {
            assert(p(s[i]) == q(s[i]));
        }
        same_choices_count_alike(s.drop_last(), p, q);
    }
}

proof fn one_choice_less_counts_one_less<A>(
    s: Seq<A>,
    p: spec_fn(A) -> bool,
    q: spec_fn(A) -> bool,
    j: int,
)
    requires
        0 <= j < s.len(),
        p(s[j]),
        !q(s[j]),
        forall|i: int| 0 <= i < s.len() && i != j ==> p(#[trigger] s[i]) == q(s[i]),
    ensures
        count_where(s, p) == count_where(s, q) + 1,
    decreases s.len(),
{
    let t = s.drop_last();
    if j == s.len() - 1 {
        assert forall|i: int| 0 <= i < t.len() implies p(#[trigger] t[i]) == q(t[i]) by {
            assert(p(s[i]) == q(s[i]));
        }
        same_choices_count_alike(t, p, q);
    } else {
        assert forall|i: int| 0 <= i < t.len() && i != j implies p(#[trigger] t[i]) == q(t[i]) by {
            assert(p(s[i]) == q(s[i]));
        }
        assert(t[j] == s[j]);
        one_choice_less_counts_one_less(t, p, q, j);
        assert(p(s[s.len() - 1]) == q(s[s.len() - 1]));
    }
}

proof fn nothing_counts_nothing<A>(s: Seq<A>, p: spec_fn(A) -> bool)
    ensures
        (count_where(s, p) == 0) == (forall|i: int| 0 <= i < s.len() ==> !p(#[trigger] s[i])),
        count_where(s, p) <= s.len(),
    decreases s.len(),
{
    if s.len() > 0 {
        let t = s.drop_last();
        nothing_counts_nothing(t, p);
        if count_where(s, p) == 0 {
            assert forall|i: int| 0 <= i < s.len() implies !p(#[trigger] s[i]) by {
                if i < t.len() {
                    assert(!p(t[i]));
                }
            }
        }
        if forall|i: int| 0 <= i < s.len() ==> !p(#[trigger] s[i]) {
            assert(!p(s[s.len() - 1]));
            assert forall|i: int| 0 <= i < t.len() implies !p(#[trigger] t[i]) by {
                assert(!p(s[i]));
            }
        }
    }
}

proof fn fewer_are_kept<A>(s: Seq<A>, p: spec_fn(A) -> bool, q: spec_fn(A) -> bool)
    requires
        forall|i: int| 0 <= i < s.len() && p(#[trigger] s[i]) ==> q(s[i]),
    ensures
        keep_where(s, p).len() <= count_where(s, q),
    decreases s.len(),
{
    if s.len() > 0 {
        let t = s.drop_last();
        assert forall|i: int| 0 <= i < t.len() && p(#[trigger] t[i]) implies q(t[i]) by {
            assert(p(s[i]) ==> q(s[i]));
        }
        fewer_are_kept(t, p, q);
        assert(p(s[s.len() - 1]) ==> q(s[s.len() - 1]));
    }
}

proof fn kept_are_those<A>(s: Seq<A>, p: spec_fn(A) -> bool)
    ensures
        forall|i: int| 0 <= i < s.len() && p(#[trigger] s[i]) ==> keep_where(s, p).contains(s[i]),
        forall|k: int|
            0 <= k < keep_where(s, p).len() ==> p(#[trigger] keep_where(s, p)[k]) && s.contains(
                keep_where(s, p)[k],
            ),
    decreases s.len(),
{
    if s.len() > 0 {
        let t = s.drop_last();
        kept_are_those(t, p);
        let kept = keep_where(s, p);
        let before = keep_where(t, p);
        assert forall|i: int| 0 <= i < s.len() && p(#[trigger] s[i]) implies kept.contains(
            s[i],
        ) by {
            if i < t.len() {
                assert(t[i] == s[i]);
                assert(before.contains(s[i]));
                let k = choose|k: int| 0 <= k < before.len() && before[k] == s[i];
                assert(kept[k] == s[i]);
            } else {
                assert(kept[kept.len() - 1] == s[i]);
            }
        }
        assert forall|k: int| 0 <= k < kept.len() implies p(#[trigger] kept[k]) && s.contains(
            kept[k],
        ) by {
            if k < before.len() {
                assert(kept[k] == before[k]);
                assert(t.contains(before[k]));
                let i = choose|i: int| 0 <= i < t.len() && t[i] == before[k];
                assert(s[i] == kept[k]);
            } else {
                assert(s[s.len() - 1] == kept[k]);
            }
        }
    }
}

// ---------------------------------------------------------------------------------------------
// Unread Messages
// ---------------------------------------------------------------------------------------------

/// A Harness has nothing unread exactly where it has read every Message that is addressed to it.
pub proof fn nothing_is_unread_once_all_is_read(m: Model, harness: HarnessKey)
    ensures
        (unread_count(m, harness) == 0) == (forall|j: int|
            0 <= j < m.messages.len() && (#[trigger] m.messages[j]).recipient == harness
                ==> has_read(m, harness, m.messages[j].id)),
{
    let p = is_waiting_for(m, harness);
    nothing_counts_nothing(m.messages, p);
    assert forall|j: int| 0 <= j < m.messages.len() implies p(#[trigger] m.messages[j]) == (
    m.messages[j].recipient == harness && !has_read(m, harness, m.messages[j].id)) by {
        marks_are_found(m, harness, m.messages[j].id);
    }
    if unread_count(m, harness) == 0 {
        assert forall|j: int|
            0 <= j < m.messages.len() && (#[trigger] m.messages[j]).recipient == harness implies
        has_read(m, harness, m.messages[j].id) by {
            assert(!p(m.messages[j]));
        }
    }
    if forall|j: int|
        0 <= j < m.messages.len() && (#[trigger] m.messages[j]).recipient == harness
            ==> has_read(m, harness, m.messages[j].id) {
        assert forall|j: int| 0 <= j < m.messages.len() implies !p(#[trigger] m.messages[j]) by {
            assert(m.messages[j].recipient == harness ==> has_read(m, harness, m.messages[j].id));
        }
    }
}

/// One more Message counts as one more for its recipient, unless it was read before it came, and as
/// nothing for others.
pub proof fn one_message_more_counts_one_more(a: Model, b: Model, x: MessageRow, harness: HarnessKey)
    requires
        b.messages == a.messages.push(x),
        b.reads == a.reads,
    ensures
        unread_count(b, harness) == unread_count(a, harness) + if x.recipient == harness
            && !has_read(a, harness, x.id) {
            1nat
        } else {
            0nat
        },
{
    marks_are_found(a, harness, x.id);
    let (p, q) = (is_waiting_for(a, harness), is_waiting_for(b, harness));
    assert(b.messages.drop_last() =~= a.messages);
    same_choices_count_alike(a.messages, p, q);
}

/// Every Message of an inbox is unread, so an inbox is never longer than the unread number.
pub proof fn inboxes_show_unread_messages(m: Model, harness: HarnessKey)
    ensures
        inbox(m, harness).len() <= unread_count(m, harness),
{
    fewer_are_kept(m.messages, is_unread(m, harness), is_waiting_for(m, harness));
}

/// An inbox shows a Message exactly where it is addressed to the Harness and not read, and the root
/// Message of a Task only once its delivery began; the state shown is that of the latest attempt.
pub proof fn inboxes_show_what_is_addressed_and_unread(m: Model, harness: HarnessKey)
    ensures
        forall|j: int|
            {
                let x = #[trigger] m.messages[j];
                0 <= j < m.messages.len() && x.recipient == harness && !has_read(
                    m,
                    harness,
                    x.id,
                ) && (x.kind != StoredMessageKind::Task || exists|k: int|
                    0 <= k < m.attempts.len() && (#[trigger] m.attempts[k]).message == x.id)
            } ==> exists|r: int|
                0 <= r < inbox(m, harness).len() && #[trigger] inbox(m, harness)[r].message
                    == m.messages[j],
        forall|r: int|
            0 <= r < inbox(m, harness).len() ==> {
                let row = #[trigger] inbox(m, harness)[r];
                &&& m.messages.contains(row.message)
                &&& row.message.recipient == harness
                &&& !has_read(m, harness, row.message.id)
                &&& row.message.kind == StoredMessageKind::Task ==> row.delivery is Some
                &&& forall|k: int|
                    0 <= k < m.attempts.len() && (#[trigger] m.attempts[k]).message
                        == row.message.id && (forall|l: int|
                        k < l < m.attempts.len() ==> (#[trigger] m.attempts[l]).message
                            != row.message.id) ==> row.delivery == Some(m.attempts[k].state)
            },
{
    let p = is_unread(m, harness);
    let kept = keep_where(m.messages, p);
    let shown = inbox(m, harness);
    kept_are_those(m.messages, p);
    assert(shown.len() == kept.len());
    assert forall|j: int|
        {
            let x = #[trigger] m.messages[j];
            0 <= j < m.messages.len() && x.recipient == harness && !has_read(m, harness, x.id) && (
            x.kind != StoredMessageKind::Task || exists|k: int|
                0 <= k < m.attempts.len() && (#[trigger] m.attempts[k]).message == x.id)
        } implies exists|r: int|
        0 <= r < shown.len() && #[trigger] shown[r].message == m.messages[j] by {
        let x = m.messages[j];
        marks_are_found(m, harness, x.id);
        if x.kind == StoredMessageKind::Task {
            let k = choose|k: int|
                0 <= k < m.attempts.len() && (#[trigger] m.attempts[k]).message == x.id;
            assert(is_attempt_of(x.id)(m.attempts[k]));
        }
        assert(p(x));
        assert(kept.contains(x));
        let r = choose|r: int| 0 <= r < kept.len() && kept[r] == x;
        assert(shown[r] == inbox_row(m, kept[r]));
        assert(shown[r].message == x);
    }
    assert forall|r: int| 0 <= r < shown.len() implies {
        let row = #[trigger] shown[r];
        &&& m.messages.contains(row.message)
        &&& row.message.recipient == harness
        &&& !has_read(m, harness, row.message.id)
        &&& row.message.kind == StoredMessageKind::Task ==> row.delivery is Some
        &&& forall|k: int|
            0 <= k < m.attempts.len() && (#[trigger] m.attempts[k]).message == row.message.id && (
            forall|l: int|
                k < l < m.attempts.len() ==> (#[trigger] m.attempts[l]).message
                    != row.message.id) ==> row.delivery == Some(m.attempts[k].state)
    } by {
        assert(shown[r] == inbox_row(m, kept[r]));
        let x = kept[r];
        assert(p(x));
        marks_are_found(m, harness, x.id);
        last_says(m.attempts, is_attempt_of(x.id));
        assert forall|k: int|
            0 <= k < m.attempts.len() && (#[trigger] m.attempts[k]).message == x.id && (forall|l: int|
                k < l < m.attempts.len() ==> (#[trigger] m.attempts[l]).message != x.id) implies
        shown[r].delivery == Some(m.attempts[k].state) by {
            last_found(m.attempts, is_attempt_of(x.id), k);
        }
    }
}

/// The identities of Messages differ.
pub open spec fn messages_differ(m: Model) -> bool {
    forall|i: int, j: int|
        0 <= i < j < m.messages.len() ==> (#[trigger] m.messages[i]).id != (
        #[trigger] m.messages[j]).id
}

proof fn reading_counts_down(m: Model, harness: HarnessKey, ids: Seq<MessageId>, n: nat)
    requires
        n <= ids.len(),
        messages_differ(m),
    ensures
        ({
            let (after, marks) = mark_read_upto(m, harness, ids, n);
            &&& unread_count(m, harness) == unread_count(after, harness) + marks
            &&& forall|other: HarnessKey| other != harness ==> #[trigger] unread_count(after, other)
                == unread_count(m, other)
        }),
    decreases n,
{
    if n > 0 {
        reading_counts_down(m, harness, ids, (n - 1) as nat);
        mark_read_frame(m, harness, ids, (n - 1) as nat);
        let (before, marks) = mark_read_upto(m, harness, ids, (n - 1) as nat);
        let after = mark_read_upto(m, harness, ids, n).0;
        let id = ids[n - 1];
        first_says(before.messages, is_message(id));
        if addressed(before, harness, id) && !some_where(before.reads, is_read(harness, id)) {
            let j = first_where(before.messages, is_message(id))->0;
            assert(is_message(id)(before.messages[j]));
            let (p, q) = (is_waiting_for(before, harness), is_waiting_for(after, harness));
            assert forall|h: HarnessKey, x: MessageId| some_where(after.reads, is_read(h, x)) == (
            some_where(before.reads, is_read(h, x)) || (h == harness && x == id)) by {
                marks_are_found(before, h, x);
                marks_are_found(after, h, x);
                if has_read(before, h, x) {
                    let r = choose|r: int|
                        0 <= r < before.reads.len() && (#[trigger] before.reads[r]).harness == h
                            && before.reads[r].message == x;
                    assert(after.reads[r] == before.reads[r]);
                }
                if h == harness && x == id {
                    let r = before.reads.len() as int;
                    assert(after.reads[r].harness == h && after.reads[r].message == x);
                }
                if has_read(after, h, x) {
                    let r = choose|r: int|
                        0 <= r < after.reads.len() && (#[trigger] after.reads[r]).harness == h
                            && after.reads[r].message == x;
                    if r < before.reads.len() {
                        assert(before.reads[r] == after.reads[r]);
                    }
                }
            }
            assert forall|i: int| 0 <= i < before.messages.len() && i != j implies p(
                #[trigger] before.messages[i],
            ) == q(before.messages[i]) by {
                if i < j {
                    assert(m.messages[i].id != m.messages[j].id);
                } else {
                    assert(m.messages[j].id != m.messages[i].id);
                }
            }
            one_choice_less_counts_one_less(before.messages, p, q, j);
            assert forall|other: HarnessKey| other != harness implies #[trigger] unread_count(
                after,
                other,
            ) == unread_count(m, other) by {
                assert(unread_count(before, other) == unread_count(m, other));
                same_choices_count_alike(
                    before.messages,
                    is_waiting_for(before, other),
                    is_waiting_for(after, other),
                );
            }
        }
    }
}

/// The unread number of a Harness goes down by the number of new marks when it marks Messages as
/// read, and that of others stays.
pub proof fn reading_lowers_the_unread_number(
    m: Model,
    actor: AuthenticatedActor,
    ids: Seq<MessageId>,
    other: HarnessKey,
)
    requires
        messages_differ(m),
        mark_inbox_read(m, actor, ids) is Ok,
        other != actor.id,
    ensures
        ({
            let (after, marks) = mark_inbox_read(m, actor, ids)->Ok_0;
            &&& unread_count(after, actor.id) + marks == unread_count(m, actor.id)
            &&& unread_count(after, other) == unread_count(m, other)
        }),
{
    reading_counts_down(m, actor.id, ids, ids.len());
}

/// A Message that a Harness marks is read afterwards, where it is addressed to that Harness.
pub proof fn marked_messages_are_read(
    m: Model,
    actor: AuthenticatedActor,
    ids: Seq<MessageId>,
    k: int,
)
    requires
        mark_inbox_read(m, actor, ids) is Ok,
        0 <= k < ids.len(),
        exists|j: int|
            {
                &&& 0 <= j < m.messages.len()
                &&& (#[trigger] m.messages[j]).id == ids[k]
                &&& m.messages[j].recipient == actor.id
                &&& forall|i: int| 0 <= i < j ==> (#[trigger] m.messages[i]).id != ids[k]
            },
    ensures
        has_read(mark_inbox_read(m, actor, ids)->Ok_0.0, actor.id, ids[k]),
        ids.len() <= 256,
{
    reading_marks(m, actor.id, ids, ids.len(), k);
}

proof fn reading_marks(m: Model, harness: HarnessKey, ids: Seq<MessageId>, n: nat, k: int)
    requires
        0 <= k < n <= ids.len(),
        exists|j: int|
            {
                &&& 0 <= j < m.messages.len()
                &&& (#[trigger] m.messages[j]).id == ids[k]
                &&& m.messages[j].recipient == harness
                &&& forall|i: int| 0 <= i < j ==> (#[trigger] m.messages[i]).id != ids[k]
            },
    ensures
        has_read(mark_read_upto(m, harness, ids, n).0, harness, ids[k]),
    decreases n,
{
    let before = mark_read_upto(m, harness, ids, (n - 1) as nat).0;
    let after = mark_read_upto(m, harness, ids, n).0;
    mark_read_frame(m, harness, ids, (n - 1) as nat);
    if k < n - 1 {
        reading_marks(m, harness, ids, (n - 1) as nat, k);
        let r = choose|r: int|
            0 <= r < before.reads.len() && (#[trigger] before.reads[r]).harness == harness
                && before.reads[r].message == ids[k];
        assert(after.reads[r] == before.reads[r]);
    } else {
        let j = choose|j: int|
            {
                &&& 0 <= j < m.messages.len()
                &&& (#[trigger] m.messages[j]).id == ids[k]
                &&& m.messages[j].recipient == harness
                &&& forall|i: int| 0 <= i < j ==> (#[trigger] m.messages[i]).id != ids[k]
            };
        first_found(before.messages, is_message(ids[k]), j);
        marks_are_found(before, harness, ids[k]);
        if !has_read(before, harness, ids[k]) {
            let r = before.reads.len() as int;
            assert(after.reads[r].harness == harness && after.reads[r].message == ids[k]);
        }
    }
}

/// The unread number of a Harness goes up by one with every Question and Notification sent to it,
/// and that of others stays.
pub proof fn sending_raises_the_unread_number(
    m: Model,
    actor: AuthenticatedActor,
    q: KeyedRequest,
    new: NewMessage,
    attachments: Seq<AttachmentId>,
    other: HarnessKey,
)
    requires
        is_new(m, q),
        accountable(m),
        send_message(m, actor, q, new, attachments) is Ok,
        new.kind == MessageKind::Question || new.kind == MessageKind::Notification,
        other != new.to,
    ensures
        ({
            let next = send_message(m, actor, q, new, attachments)->Ok_0.0;
            &&& unread_count(next, new.to) == unread_count(m, new.to) + 1
            &&& unread_count(next, other) == unread_count(m, other)
        }),
{
    let next = send_message(m, actor, q, new, attachments)->Ok_0.0;
    sent_messages_are_stored(m, actor, q, new, attachments);
    let sent = posted(m, actor, new);
    if let Some(id) = new.task {
        let i = first_where(sent.tasks, is_task(id))->0;
        record_transition_frame(
            Model {
                tasks: sent.tasks.update(i, TaskRow { state: TaskState::Waiting, ..sent.tasks[i] }),
                ..sent
            },
            id,
            TaskState::Working,
            TaskState::Waiting,
            TransitionReason::Plain,
        );
    }
    assert(next.reads == m.reads);
    let x = next.messages.last();
    assert(next.messages =~= m.messages.push(x));
    assert(!has_read(m, new.to, new.id)) by {
        reveal(accounts);
        first_says(m.messages, is_message(new.id));
        if has_read(m, new.to, new.id) {
            let r = choose|r: int|
                0 <= r < m.reads.len() && (#[trigger] m.reads[r]).harness == new.to
                    && m.reads[r].message == new.id;
            assert(knows(m.messages, new.id));
            let j = choose|j: int| 0 <= j < m.messages.len() && (#[trigger] m.messages[j]).id
                == new.id;
            assert(is_message(new.id)(m.messages[j]));
        }
    }
    one_message_more_counts_one_more(m, next, x, new.to);
    one_message_more_counts_one_more(m, next, x, other);
}

/// No event of a kind tells of a Message that is addressed to a Harness.
pub open spec fn tells_nothing_of(
    m: Model,
    kind: SupervisorEventKind,
    harness: HarnessKey,
) -> bool {
    forall|e: int, j: int|
        0 <= e < m.events.len() && 0 <= j < m.messages.len() && (#[trigger] m.events[e]).kind == kind
            && m.events[e].message == Some((#[trigger] m.messages[j]).id)
            ==> m.messages[j].recipient != harness
}

proof fn processing_reads_nothing_else(
    m: Model,
    kind: SupervisorEventKind,
    task: TaskId,
    n: nat,
    harness: HarnessKey,
)
    requires
        n <= m.events.len(),
        tells_nothing_of(m, kind, harness),
    ensures
        ({
            let after = process_events_upto(m, kind, task, None, n);
            &&& after.messages == m.messages
            &&& after.events.len() == m.events.len()
            &&& forall|e: int|
                0 <= e < m.events.len() ==> (#[trigger] after.events[e]).message
                    == m.events[e].message && after.events[e].kind == m.events[e].kind
            &&& forall|x: MessageId|
                has_read(after, harness, x) == #[trigger] has_read(m, harness, x)
        }),
    decreases n,
{
    if n > 0 {
        processing_reads_nothing_else(m, kind, task, (n - 1) as nat, harness);
        let before = process_events_upto(m, kind, task, None, (n - 1) as nat);
        let after = process_events_upto(m, kind, task, None, n);
        let e = before.events[n - 1];
        assert(e.kind == m.events[n - 1].kind && e.message == m.events[n - 1].message);
        if let Some(id) = e.message {
            first_says(before.messages, is_message(id));
            if let Some(k) = first_where(before.messages, is_message(id)) {
                assert(is_message(id)(before.messages[k]));
                assert(m.events[n - 1].message == Some(m.messages[k].id));
                assert(e.kind == kind ==> m.messages[k].recipient != harness);
            }
        }
        assert forall|x: MessageId| has_read(after, harness, x) == #[trigger] has_read(
            m,
            harness,
            x,
        ) by {
            assert(has_read(before, harness, x) == has_read(m, harness, x));
            if has_read(before, harness, x) {
                let r = choose|r: int|
                    0 <= r < before.reads.len() && (#[trigger] before.reads[r]).harness == harness
                        && before.reads[r].message == x;
                assert(after.reads[r] == before.reads[r]);
            }
            if has_read(after, harness, x) {
                let r = choose|r: int|
                    0 <= r < after.reads.len() && (#[trigger] after.reads[r]).harness == harness
                        && after.reads[r].message == x;
                assert(before.reads[r] == after.reads[r]);
            }
        }
    }
}

/// The unread number of a Harness goes up by one with every Reply and Correction sent to it, and
/// that of another stays, where the events that those settle, of Questions and of Results, tell of
/// Messages to others.
pub proof fn answering_raises_the_unread_number(
    m: Model,
    actor: AuthenticatedActor,
    q: KeyedRequest,
    new: NewMessage,
    attachments: Seq<AttachmentId>,
    harness: HarnessKey,
)
    requires
        is_new(m, q),
        accountable(m),
        new.kind == MessageKind::Reply ==> tells_nothing_of(
            m,
            SupervisorEventKind::BlockingQuestion,
            harness,
        ),
        new.kind == MessageKind::Correction ==> tells_nothing_of(
            m,
            SupervisorEventKind::ResultReady,
            harness,
        ),
        send_message(m, actor, q, new, attachments) is Ok,
        new.kind == MessageKind::Reply || new.kind == MessageKind::Correction,
    ensures
        unread_count(send_message(m, actor, q, new, attachments)->Ok_0.0, harness) == unread_count(
            m,
            harness,
        ) + if new.to == harness {
            1nat
        } else {
            0nat
        },
{
    let next = send_message(m, actor, q, new, attachments)->Ok_0.0;
    let sent = posted(m, actor, new);
    let x = sent.messages.last();
    reveal(accounts);
    first_says(m.messages, is_message(new.id));
    assert(!knows(m.messages, new.id)) by {
        if knows(m.messages, new.id) {
            let j = choose|j: int| 0 <= j < m.messages.len() && (#[trigger] m.messages[j]).id
                == new.id;
            assert(is_message(new.id)(m.messages[j]));
        }
    }
    assert(!has_read(m, harness, new.id)) by {
        if has_read(m, harness, new.id) {
            let r = choose|r: int|
                0 <= r < m.reads.len() && (#[trigger] m.reads[r]).harness == harness
                    && m.reads[r].message == new.id;
            assert(knows(m.messages, m.reads[r].message));
        }
    }
    let kind = if new.kind == MessageKind::Reply {
        SupervisorEventKind::BlockingQuestion
    } else {
        SupervisorEventKind::ResultReady
    };
    assert(tells_nothing_of(sent, kind, harness)) by {
        assert forall|e: int, j: int|
            0 <= e < sent.events.len() && 0 <= j < sent.messages.len() && (
            #[trigger] sent.events[e]).kind == kind && sent.events[e].message == Some(
                (#[trigger] sent.messages[j]).id,
            ) implies sent.messages[j].recipient != harness by {
            assert(grounded(m.messages, m.events[e]));
            if j < m.messages.len() {
                assert(m.events[e].message == Some(m.messages[j].id));
            }
        }
    }
    one_message_more_counts_one_more(m, sent, x, harness);
    if let Some(id) = new.task {
        processing_reads_nothing_else(sent, kind, id, sent.events.len(), harness);
        let after = process_events_upto(sent, kind, id, None, sent.events.len());
        assert forall|j: int| 0 <= j < sent.messages.len() implies is_waiting_for(sent, harness)(
            #[trigger] sent.messages[j],
        ) == is_waiting_for(after, harness)(sent.messages[j]) by {
            marks_are_found(sent, harness, sent.messages[j].id);
            marks_are_found(after, harness, sent.messages[j].id);
            assert(has_read(after, harness, sent.messages[j].id) == has_read(
                sent,
                harness,
                sent.messages[j].id,
            ));
        }
        same_choices_count_alike(
            sent.messages,
            is_waiting_for(sent, harness),
            is_waiting_for(after, harness),
        );
        same_choices_count_alike(
            sent.messages,
            is_waiting_for(after, harness),
            is_waiting_for(next, harness),
        );
    } else {
        same_choices_count_alike(
            sent.messages,
            is_waiting_for(sent, harness),
            is_waiting_for(next, harness),
        );
    }
}

// ---------------------------------------------------------------------------------------------
// Harnesses
// ---------------------------------------------------------------------------------------------

/// A Harness shows the presence and the activity of its newest Session that has not ended, or is
/// offline and idle, and the first Task that it is busy with.
pub proof fn harnesses_show_their_newest_session(m: Model, h: HarnessRow, s: int, t: int)
    ensures
        harness_status(m, h).key == h.key,
        harness_status(m, h).tier == h.tier,
        0 <= s < m.sessions.len() && m.sessions[s].harness == h.key && !m.sessions[s].ended && (
        forall|j: int|
            s < j < m.sessions.len() ==> (#[trigger] m.sessions[j]).harness != h.key
                || m.sessions[j].ended) ==> harness_status(m, h).presence == m.sessions[s].presence
            && harness_status(m, h).activity == m.sessions[s].activity,
        (forall|j: int|
            0 <= j < m.sessions.len() ==> (#[trigger] m.sessions[j]).harness != h.key
                || m.sessions[j].ended) ==> harness_status(m, h).presence == Presence::Offline
            && harness_status(m, h).activity == Activity::Idle,
        0 <= t < m.tasks.len() && is_busy_with(m.tasks[t], h.key) && (forall|j: int|
            0 <= j < t ==> !is_busy_with(#[trigger] m.tasks[j], h.key)) ==> harness_status(
            m,
            h,
        ).active_task == Some(m.tasks[t].id),
        (forall|j: int| 0 <= j < m.tasks.len() ==> !is_busy_with(#[trigger] m.tasks[j], h.key))
            ==> harness_status(m, h).active_task is None,
        unread_count(m, h.key) <= u32::MAX ==> harness_status(m, h).unread == unread_count(
            m,
            h.key,
        ),
{
    let live = is_live_session_of(h.key);
    if 0 <= s < m.sessions.len() && m.sessions[s].harness == h.key && !m.sessions[s].ended && (
    forall|j: int|
        s < j < m.sessions.len() ==> (#[trigger] m.sessions[j]).harness != h.key
            || m.sessions[j].ended) {
        last_found(m.sessions, live, s);
    }
    if forall|j: int|
        0 <= j < m.sessions.len() ==> (#[trigger] m.sessions[j]).harness != h.key
            || m.sessions[j].ended {
        last_missing(m.sessions, live);
    }
    let busy = occupies(h.key, None);
    if 0 <= t < m.tasks.len() && is_busy_with(m.tasks[t], h.key) && (forall|j: int|
        0 <= j < t ==> !is_busy_with(#[trigger] m.tasks[j], h.key)) {
        assert forall|j: int| 0 <= j < t implies !busy(#[trigger] m.tasks[j]) by {
            assert(!is_busy_with(m.tasks[j], h.key));
        }
        first_found(m.tasks, busy, t);
    }
    if forall|j: int| 0 <= j < m.tasks.len() ==> !is_busy_with(#[trigger] m.tasks[j], h.key) {
        assert forall|j: int| 0 <= j < m.tasks.len() implies !busy(#[trigger] m.tasks[j]) by {
            assert(!is_busy_with(m.tasks[j], h.key));
        }
        first_missing(m.tasks, busy);
    }
}

// ---------------------------------------------------------------------------------------------
// Tasks in line
// ---------------------------------------------------------------------------------------------

/// A Task that stands in its Worker's line: queued and ready.
pub open spec fn queues(t: TaskRow, worker: HarnessKey) -> bool {
    t.worker == worker && t.state == TaskState::Queued && t.scheduling
        == TaskSchedulingState::Ready
}

/// A Task of the graph has a place in line exactly where it is queued and ready; the first in line
/// has the first place, and each further one the place behind the one before it. It waits for its
/// Worker where that is busy with another Task, for a Session where it is not and the Task has
/// none, and for the repository where a Hold or the lease of another Task lies on its worktree.
pub proof fn the_graph_shows_what_tasks_wait_for(m: Model, i: int, r: GraphRow)
    requires
        0 <= i < m.tasks.len(),
        graph_row(m, i, r),
    ensures
        ({
            let t = m.tasks[i];
            let waits = queues(t, t.worker);
            let busy = exists|j: int|
                0 <= j < m.tasks.len() && (#[trigger] m.tasks[j]).id != t.id && is_busy_with(
                    m.tasks[j],
                    t.worker,
                );
            let blocked = (exists|h: int|
                0 <= h < m.holds.len() && (#[trigger] m.holds[h]).worktree == t.worktree
                    && !m.holds[h].cleared) || (exists|l: int|
                0 <= l < m.leases.len() && (#[trigger] m.leases[l]).worktree == t.worktree
                    && !m.leases[l].released && m.leases[l].task != t.id);
            &&& r.status.task == t
            &&& (r.position is Some) == waits
            &&& waits && (forall|j: int| 0 <= j < i ==> !queues(#[trigger] m.tasks[j], t.worker))
                ==> r.position == Some(1u32)
            &&& r.waiting_for_worker == (waits && busy)
            &&& r.waiting_for_repository == (waits && blocked)
            &&& r.waiting_for_session ==> waits && !busy && r.status.binding is None
            &&& waits && !busy && r.status.binding is None ==> r.waiting_for_session
        }),
{
    let t = m.tasks[i];
    let line = in_line(t.worker);
    let other = occupies(t.worker, Some(t.id));
    if some_where(m.tasks, other) {
        let j = choose|j: int| 0 <= j < m.tasks.len() && other(#[trigger] m.tasks[j]);
        assert(m.tasks[j].id != t.id && is_busy_with(m.tasks[j], t.worker));
    }
    if exists|j: int|
        0 <= j < m.tasks.len() && (#[trigger] m.tasks[j]).id != t.id && is_busy_with(
            m.tasks[j],
            t.worker,
        ) {
        let j = choose|j: int|
            0 <= j < m.tasks.len() && (#[trigger] m.tasks[j]).id != t.id && is_busy_with(
                m.tasks[j],
                t.worker,
            );
        assert(other(m.tasks[j]));
    }
    if held(m, t.worktree) {
        let h = choose|h: int|
            0 <= h < m.holds.len() && is_active_hold_on(t.worktree)(#[trigger] m.holds[h]);
        assert(m.holds[h].worktree == t.worktree && !m.holds[h].cleared);
    }
    if exists|h: int|
        0 <= h < m.holds.len() && (#[trigger] m.holds[h]).worktree == t.worktree
            && !m.holds[h].cleared {
        let h = choose|h: int|
            0 <= h < m.holds.len() && (#[trigger] m.holds[h]).worktree == t.worktree
                && !m.holds[h].cleared;
        assert(is_active_hold_on(t.worktree)(m.holds[h]));
    }
    let foreign = is_foreign_lease(t.worktree, t.id);
    if some_where(m.leases, foreign) {
        let l = choose|l: int| 0 <= l < m.leases.len() && foreign(#[trigger] m.leases[l]);
        assert(m.leases[l].worktree == t.worktree && m.leases[l].task != t.id);
    }
    if exists|l: int|
        0 <= l < m.leases.len() && (#[trigger] m.leases[l]).worktree == t.worktree
            && !m.leases[l].released && m.leases[l].task != t.id {
        let l = choose|l: int|
            0 <= l < m.leases.len() && (#[trigger] m.leases[l]).worktree == t.worktree
                && !m.leases[l].released && m.leases[l].task != t.id;
        assert(foreign(m.leases[l]));
    }
    count_step(m.tasks, line, i);
    if queues(t, t.worker) && (forall|j: int|
        0 <= j < i ==> !queues(#[trigger] m.tasks[j], t.worker)) {
        let before = m.tasks.take(i);
        nothing_counts_nothing(before, line);
        assert forall|j: int| 0 <= j < before.len() implies !line(#[trigger] before[j]) by {
            assert(!queues(m.tasks[j], t.worker));
        }
    }
}

/// Of two Tasks of one Worker that follow each other in its line, the later has the next place.
pub proof fn places_in_line_follow_each_other(
    m: Model,
    i: int,
    j: int,
    a: GraphRow,
    b: GraphRow,
)
    requires
        0 <= i < j < m.tasks.len(),
        graph_row(m, i, a),
        graph_row(m, j, b),
        m.tasks[i].worker == m.tasks[j].worker,
        queues(m.tasks[i], m.tasks[i].worker),
        queues(m.tasks[j], m.tasks[j].worker),
        forall|k: int| i < k < j ==> !queues(#[trigger] m.tasks[k], m.tasks[i].worker),
        a.position is Some,
        a.position->0 < u32::MAX,
    ensures
        b.position == Some((a.position->0 + 1) as u32),
{
    let line = in_line(m.tasks[i].worker);
    skipped_rows_count_nothing(m.tasks, line, i + 1, j);
    count_step(m.tasks, line, j);
}

proof fn skipped_rows_count_nothing(s: Seq<TaskRow>, p: spec_fn(TaskRow) -> bool, a: int, b: int)
    requires
        0 <= a <= b <= s.len(),
        forall|k: int| a <= k < b ==> !p(#[trigger] s[k]),
    ensures
        count_where(s.take(a), p) == count_where(s.take(b), p),
    decreases b - a,
{
    if a < b {
        skipped_rows_count_nothing(s, p, a, b - 1);
        count_step(s, p, b - 1);
    }
}

/// The binding that a Task shows is one of its own that is not superseded, and it shows one where
/// there is any.
pub proof fn tasks_show_their_binding_in_force(m: Model, id: TaskId)
    ensures
        match current_binding(m, id) {
            Some(b) => b.task == id && !b.superseded && m.bindings.contains(b),
            None => forall|j: int|
                0 <= j < m.bindings.len() ==> (#[trigger] m.bindings[j]).task != id
                    || m.bindings[j].superseded,
        },
{
    first_says(m.bindings, is_current_binding(id));
    if current_binding(m, id) is None {
        assert forall|j: int| 0 <= j < m.bindings.len() implies (#[trigger] m.bindings[j]).task
            != id || m.bindings[j].superseded by {
            assert(!is_current_binding(id)(m.bindings[j]));
        }
    }
}

/// The Holds that are shown are those that were not cleared.
pub proof fn holds_are_shown_until_they_are_cleared(m: Model, h: HoldRow)
    ensures
        keep_where(m.holds, is_active_hold()).contains(h) == (m.holds.contains(h) && !h.cleared),
{
    kept_are_those(m.holds, is_active_hold());
    let shown = keep_where(m.holds, is_active_hold());
    if m.holds.contains(h) && !h.cleared {
        let i = choose|i: int| 0 <= i < m.holds.len() && m.holds[i] == h;
        assert(is_active_hold()(m.holds[i]));
    }
    if shown.contains(h) {
        let k = choose|k: int| 0 <= k < shown.len() && shown[k] == h;
        assert(is_active_hold()(shown[k]));
    }
}

} // verus!

//! What read marks, events and Attachments refer to.
use vstd::prelude::*;

use crate::identity::MessageId;
use crate::ledger::Model;
use crate::rows::{AttachedRow, AttachmentOwner, EventOrigin, EventRow, MessageRow, ReadRow};
use crate::select::begins;

verus! {

/// A Message with an identity is among others.
pub open spec fn knows(messages: Seq<MessageRow>, id: MessageId) -> bool {
    exists|i: int| 0 <= i < messages.len() && (#[trigger] messages[i]).id == id
}

/// A Message that is kept stays known.
pub broadcast proof fn kept_messages_stay_known(
    a: Seq<MessageRow>,
    b: Seq<MessageRow>,
    id: MessageId,
)
    requires
        #[trigger] begins(a, b),
        #[trigger] knows(a, id),
    ensures
        knows(b, id),
{
    let i = choose|i: int| 0 <= i < a.len() && (#[trigger] a[i]).id == id;
    assert(b[i].id == id);
}

/// What an event refers to exists.
pub open spec fn grounded(messages: Seq<MessageRow>, e: EventRow) -> bool {
    &&& e.message is Some ==> knows(messages, e.message->0)
    &&& e.origin matches EventOrigin::Question { message } ==> e.message == Some(message)
}

/// An Attachment that belongs to a Message belongs to one that exists.
pub open spec fn rooted(messages: Seq<MessageRow>, a: AttachedRow) -> bool {
    a.owner matches AttachmentOwner::Message { message } ==> knows(messages, message)
}

/// Read marks, events and Attachments refer to Messages that exist.
#[verifier::opaque]
pub open spec fn accounts(
    messages: Seq<MessageRow>,
    reads: Seq<ReadRow>,
    events: Seq<EventRow>,
    attached: Seq<AttachedRow>,
) -> bool {
    &&& forall|i: int| 0 <= i < reads.len() ==> knows(messages, (#[trigger] reads[i]).message)
    &&& forall|i: int| 0 <= i < events.len() ==> grounded(messages, #[trigger] events[i])
    &&& forall|i: int| 0 <= i < attached.len() ==> rooted(messages, #[trigger] attached[i])
}

/// Nothing in the ledger refers to a Message that does not exist.
pub open spec fn accountable(m: Model) -> bool {
    accounts(m.messages, m.reads, m.events, m.attached)
}

/// More Messages leave what refers to the former ones in order.
pub proof fn growth_keeps_accounts(a: Model, b: Model)
    requires
        begins(a.messages, b.messages),
        b.reads == a.reads,
        b.events == a.events,
        b.attached == a.attached,
    ensures
        accountable(a) ==> accountable(b),
{
    reveal(accounts);
    broadcast use kept_messages_stay_known;
    if accountable(a) {
        assert forall|i: int| 0 <= i < b.events.len() implies grounded(
            b.messages,
            #[trigger] b.events[i],
        ) by {
            assert(grounded(a.messages, a.events[i]));
        }
        assert forall|i: int| 0 <= i < b.attached.len() implies rooted(
            b.messages,
            #[trigger] b.attached[i],
        ) by {
            assert(rooted(a.messages, a.attached[i]));
        }
    }
}

} // verus!

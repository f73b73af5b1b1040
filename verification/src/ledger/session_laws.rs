//! How Sessions and the connections of their Hosts begin, go on and end.
use vstd::prelude::*;

use crate::contract::{
    Activity, HarnessTier, NativeSessionHealth, Presence, SupervisorEventDeliveryState, TaskState,
};
use crate::error::{ErrorCategory, Refusal};
use crate::identity::{HarnessSessionId, HostConnectionId};
use crate::ledger::{is_harness, is_live_session, is_live_session_of, is_session, occupies, Model};
use crate::ledger::connections::{
    authenticate, authenticate_host, bind_connection, disconnect_connection, is_connection,
    is_host_opened_by, is_opened_by, is_reconnectable, prepare_reconnect, renew_connection,
    NewConnection,
};
use crate::ledger::events::note_timeouts_frame;
use crate::ledger::frames::transition_frame;
use crate::ledger::hosts::{
    adapter_snapshot, drop_connection, host_compatibility, host_ready, is_active_connection,
    or_else, supervisor_binding, supervisor_disconnected, HarnessCompatibilityEvidenceV1,
    NativeFindings, ReportedState,
};
use crate::ledger::schedule_laws::{places_are_found, stands};
use crate::ledger::sessions::{
    abort_worker_start, is_idle_online, is_live_supervisor, is_starting_of, register_supervisor,
    rotate_session, start_worker, NewHarness,
};
use crate::ledger::show_laws::is_busy_with;
use crate::ledger::shutdown::{
    deactivate, host_event, host_stopped, is_active_hold, is_active_lease, is_any_live_worker,
    is_host_event, is_live_worker_session, is_stoppable_of, is_unfinished, stop_worker,
};
use crate::rows::{
    AttemptState, AuthenticatedActor, ConnectionStatus, HarnessKey, SessionRow, TaskRow, TextKey,
    Wording,
};
use crate::select::{
    count_where, first_found, first_missing, first_says, first_where, last_found, last_missing,
    some_where,
};
use crate::text::{blank, byte_count, has_prefix};

verus! {

// ---------------------------------------------------------------------------------------------
// Rows
// ---------------------------------------------------------------------------------------------

/// The first Session with an identity that has not ended stands at a place.
pub open spec fn lives(m: Model, id: HarnessSessionId, s: int) -> bool {
    &&& 0 <= s < m.sessions.len()
    &&& m.sessions[s].id == id
    &&& !m.sessions[s].ended
    &&& forall|j: int|
        0 <= j < s ==> (#[trigger] m.sessions[j]).id != id || m.sessions[j].ended
}

/// No Session with an identity lives.
pub open spec fn is_over(m: Model, id: HarnessSessionId) -> bool {
    forall|j: int|
        0 <= j < m.sessions.len() ==> (#[trigger] m.sessions[j]).id != id || m.sessions[j].ended
}

/// The first Harness with a key stands at a place.
pub open spec fn serves(m: Model, key: HarnessKey, h: int) -> bool {
    &&& 0 <= h < m.harnesses.len()
    &&& m.harnesses[h].key == key
    &&& forall|j: int| 0 <= j < h ==> (#[trigger] m.harnesses[j]).key != key
}

/// One Session has a new row, and no other has.
pub open spec fn renews(a: Model, b: Model, s: int) -> bool {
    &&& b.sessions.len() == a.sessions.len()
    &&& b.sessions[s].id == a.sessions[s].id
    &&& b.sessions[s].harness == a.sessions[s].harness
    &&& b.sessions[s].capability == a.sessions[s].capability
    &&& forall|j: int|
        0 <= j < a.sessions.len() && j != s ==> #[trigger] b.sessions[j] == a.sessions[j]
}

pub(crate) proof fn live_rows_are_found(m: Model, id: HarnessSessionId, s: int)
    ensures
        lives(m, id, s) ==> first_where(m.sessions, is_live_session(id)) == Some(s),
        is_over(m, id) ==> first_where(m.sessions, is_live_session(id)) is None,
{
    if lives(m, id, s) {
        first_found(m.sessions, is_live_session(id), s);
    }
    if is_over(m, id) {
        first_missing(m.sessions, is_live_session(id));
    }
}

proof fn busy_workers_are_found(m: Model, worker: HarnessKey)
    ensures
        some_where(m.tasks, occupies(worker, None)) == (exists|j: int|
            0 <= j < m.tasks.len() && is_busy_with(#[trigger] m.tasks[j], worker)),
{
    let p = occupies(worker, None);
    if some_where(m.tasks, p) {
        let j = choose|j: int| 0 <= j < m.tasks.len() && p(#[trigger] m.tasks[j]);
        assert(is_busy_with(m.tasks[j], worker));
    }
    if exists|j: int| 0 <= j < m.tasks.len() && is_busy_with(#[trigger] m.tasks[j], worker) {
        let j = choose|j: int|
            0 <= j < m.tasks.len() && is_busy_with(#[trigger] m.tasks[j], worker);
        assert(p(m.tasks[j]));
    }
}

// ---------------------------------------------------------------------------------------------
// Capabilities
// ---------------------------------------------------------------------------------------------

/// A Session whose capability is of use: it has not ended, and it starts, is online, lost its
/// connection, seeks it again, or is offline.
pub open spec fn is_usable(s: SessionRow) -> bool {
    !s.ended && (s.presence == Presence::Starting || s.presence == Presence::Online || s.presence
        == Presence::Disconnected || s.presence == Presence::Reconnecting || s.presence
        == Presence::Offline)
}

/// A Session capability stands for the first usable Session that has it, with the tier that its
/// Harness registered; one that no usable Session has is not accepted.
pub proof fn capabilities_stand_for_their_session(m: Model, capability: TextKey, s: int, h: int)
    ensures
        ({
            let answer = authenticate(m, capability);
            &&& 0 <= s < m.sessions.len() && m.sessions[s].capability == capability && is_usable(
                m.sessions[s],
            ) && serves(m, m.sessions[s].harness, h) && (forall|j: int|
                0 <= j < s ==> (#[trigger] m.sessions[j]).capability != capability || !is_usable(
                    m.sessions[j],
                )) ==> answer is Ok && answer->Ok_0.id == m.sessions[s].harness && answer->Ok_0.tier
                == m.harnesses[h].tier && answer->Ok_0.session == m.sessions[s].id
                && answer->Ok_0.connection is None
            &&& (forall|j: int|
                0 <= j < m.sessions.len() ==> (#[trigger] m.sessions[j]).capability != capability
                    || !is_usable(m.sessions[j])) ==> answer is Err && answer->Err_0.category
                == ErrorCategory::Unauthenticated
        }),
{
    let p = is_opened_by(m, capability);
    if 0 <= s < m.sessions.len() && m.sessions[s].capability == capability && is_usable(
        m.sessions[s],
    ) && serves(m, m.sessions[s].harness, h) && (forall|j: int|
        0 <= j < s ==> (#[trigger] m.sessions[j]).capability != capability || !is_usable(
            m.sessions[j],
        )) {
        first_found(m.harnesses, is_harness(m.sessions[s].harness), h);
        assert forall|j: int| 0 <= j < s implies !p(#[trigger] m.sessions[j]) by {
            assert(m.sessions[j].capability != capability || !is_usable(m.sessions[j]));
        }
        first_found(m.sessions, p, s);
    }
    if forall|j: int|
        0 <= j < m.sessions.len() ==> (#[trigger] m.sessions[j]).capability != capability
            || !is_usable(m.sessions[j]) {
        assert forall|j: int| 0 <= j < m.sessions.len() implies !p(#[trigger] m.sessions[j]) by {
            assert(m.sessions[j].capability != capability || !is_usable(m.sessions[j]));
        }
        first_missing(m.sessions, p);
    }
}

/// A connection capability is accepted only while the lease of the connection runs, and stands for
/// the Session behind it, which lives and has no newer connection.
pub proof fn connections_stand_for_their_session(m: Model, capability: TextKey, now: u64)
    ensures
        match authenticate_host(m, capability, now) {
            Ok(who) => exists|c: int, s: int|
                {
                    &&& 0 <= c < m.connections.len()
                    &&& 0 <= s < m.sessions.len()
                    &&& (#[trigger] m.connections[c]).capability == capability
                    &&& m.connections[c].status == ConnectionStatus::Active
                    &&& now < m.connections[c].expires_at
                    &&& m.connections[c].session == (#[trigger] m.sessions[s]).id
                    &&& m.connections[c].generation == m.sessions[s].generation
                    &&& !m.sessions[s].ended
                    &&& who.id == m.sessions[s].harness
                    &&& who.session == m.sessions[s].id
                    &&& who.connection == Some(m.connections[c].id)
                },
            Err(e) => e.category == ErrorCategory::Unauthenticated,
        },
{
    let p = is_host_opened_by(m, capability, now);
    first_says(m.connections, p);
    if let Some(c) = first_where(m.connections, p) {
        assert(p(m.connections[c]));
        let id = m.connections[c].session;
        first_says(m.sessions, is_session(id));
        let s = first_where(m.sessions, is_session(id))->0;
        assert(m.connections[c].capability == capability && m.connections[c].session
            == m.sessions[s].id);
    }
}

/// Binding a connection moves the generation of its Session on by one and closes every connection
/// of that Session that was active; the new one runs for the seconds asked for, which are 1 to 300.
pub proof fn new_connections_follow_the_former_ones(
    m: Model,
    actor: AuthenticatedActor,
    instance: Seq<char>,
    new: NewConnection,
    now: u64,
    s: int,
)
    requires
        lives(m, actor.session, s),
        m.sessions[s].generation < u64::MAX,
        forall|c: int| 0 <= c < m.connections.len() ==> (#[trigger] m.connections[c]).id != new.id,
        now + 300_000_000 <= u64::MAX,
    ensures
        ({
            let answer = bind_connection(m, actor, instance, new, now);
            let fits = !blank(instance) && byte_count(instance) <= 256 && 1 <= new.lease_seconds
                && new.lease_seconds <= 300;
            let (after, generation) = answer->Ok_0;
            let n = m.connections.len() as int;
            &&& !fits ==> answer is Err && answer->Err_0.category == ErrorCategory::InvalidInput
            &&& fits ==> {
                &&& answer is Ok
                &&& generation == m.sessions[s].generation + 1
                &&& renews(m, after, s)
                &&& after.sessions[s].generation == generation
                &&& after.connections.len() == n + 1
                &&& after.connections[n].id == new.id
                &&& after.connections[n].session == actor.session
                &&& after.connections[n].generation == generation
                &&& after.connections[n].capability == new.capability
                &&& after.connections[n].status == ConnectionStatus::Active
                &&& after.connections[n].expires_at == now + new.lease_seconds * 1_000_000
                &&& forall|c: int|
                    0 <= c < n && m.connections[c].session == actor.session ==> (
                    #[trigger] after.connections[c]).status != ConnectionStatus::Active
                &&& forall|c: int|
                    0 <= c < n && m.connections[c].session != actor.session ==> #[trigger]
                    after.connections[c] == m.connections[c]
            }
        }),
{
    live_rows_are_found(m, actor.session, s);
    assert(!some_where(m.connections, is_connection(new.id))) by {
        if some_where(m.connections, is_connection(new.id)) {
            let c = choose|c: int|
                0 <= c < m.connections.len() && is_connection(new.id)(#[trigger] m.connections[c]);
            assert(m.connections[c].id == new.id);
        }
    }
}

/// The first active connection with an identity stands at a place.
pub open spec fn is_active_at(m: Model, id: HostConnectionId, c: int) -> bool {
    &&& 0 <= c < m.connections.len()
    &&& m.connections[c].id == id
    &&& m.connections[c].status == ConnectionStatus::Active
    &&& forall|j: int|
        0 <= j < c ==> (#[trigger] m.connections[j]).id != id || m.connections[j].status
            != ConnectionStatus::Active
}

/// One connection has a new row, and no other has.
pub open spec fn reconnects(a: Model, b: Model, c: int) -> bool {
    &&& b.connections.len() == a.connections.len()
    &&& b.connections[c].id == a.connections[c].id
    &&& b.connections[c].session == a.connections[c].session
    &&& b.connections[c].generation == a.connections[c].generation
    &&& forall|j: int|
        0 <= j < a.connections.len() && j != c ==> #[trigger] b.connections[j] == a.connections[j]
}

/// An active connection is renewed for the seconds that it was bound for, from now on; closing it
/// ends it. One that is not active can be neither renewed nor closed, and neither can be done
/// without one.
pub proof fn active_connections_are_renewed_or_closed(
    m: Model,
    actor: AuthenticatedActor,
    id: HostConnectionId,
    c: int,
    diagnostic: Option<Seq<char>>,
    key: Option<TextKey>,
    now: u64,
)
    requires
        diagnostic is Some ==> byte_count(diagnostic->0) <= 16_384,
    ensures
        ({
            let renewed = renew_connection(m, actor, now);
            let closed = disconnect_connection(m, actor, diagnostic, key);
            let inactive = forall|j: int|
                0 <= j < m.connections.len() ==> (#[trigger] m.connections[j]).id != id
                    || m.connections[j].status != ConnectionStatus::Active;
            &&& actor.connection is None ==> renewed is Err && renewed->Err_0.category
                == ErrorCategory::Forbidden && closed is Err && closed->Err_0.category
                == ErrorCategory::Forbidden
            &&& actor.connection == Some(id) && inactive ==> renewed is Err
                && renewed->Err_0.category == ErrorCategory::Unauthenticated && closed is Err
                && closed->Err_0.category == ErrorCategory::Unauthenticated
            &&& actor.connection == Some(id) && is_active_at(m, id, c) && now
                + m.connections[c].lease_seconds * 1_000_000 <= u64::MAX ==> {
                &&& renewed is Ok
                &&& reconnects(m, renewed->Ok_0.0, c)
                &&& renewed->Ok_0.1 == now + m.connections[c].lease_seconds * 1_000_000
                &&& renewed->Ok_0.0.connections[c].expires_at == renewed->Ok_0.1
                &&& renewed->Ok_0.0.connections[c].status == ConnectionStatus::Active
            }
            &&& actor.connection == Some(id) && is_active_at(m, id, c) ==> closed is Ok
                && reconnects(m, closed->Ok_0, c) && closed->Ok_0.connections[c].status
                == (ConnectionStatus::Disconnected { settling: false }) && closed->Ok_0.sessions
                == m.sessions
        }),
{
    let p = is_active_connection(id);
    if is_active_at(m, id, c) {
        first_found(m.connections, p, c);
    }
    if forall|j: int|
        0 <= j < m.connections.len() ==> (#[trigger] m.connections[j]).id != id
            || m.connections[j].status != ConnectionStatus::Active {
        first_missing(m.connections, p);
    }
}

// ---------------------------------------------------------------------------------------------
// Beginnings
// ---------------------------------------------------------------------------------------------

/// A Session of the Supervisor lives.
pub open spec fn is_supervised(m: Model) -> bool {
    exists|s: int, h: int|
        0 <= s < m.sessions.len() && !(#[trigger] m.sessions[s]).ended && #[trigger] serves(
            m,
            m.sessions[s].harness,
            h,
        ) && m.harnesses[h].tier == HarnessTier::Supervisor
}

/// There is one Supervisor at a time: it is registered, online and idle, where no Session of one
/// lives and its key and its Session are new, and refused where one lives or the key is taken.
pub proof fn one_supervisor_registers(m: Model, new: NewHarness, now: u64)
    requires
        forall|s: int| 0 <= s < m.sessions.len() ==> (#[trigger] m.sessions[s]).id != new.session,
    ensures
        ({
            let answer = register_supervisor(m, new, now);
            let after = answer->Ok_0;
            let known = exists|h: int|
                0 <= h < m.harnesses.len() && (#[trigger] m.harnesses[h]).key == new.key;
            let fits = new.tier == HarnessTier::Supervisor && !is_supervised(m) && !known;
            &&& new.tier != HarnessTier::Supervisor ==> answer is Err && answer->Err_0.category
                == ErrorCategory::InvalidInput
            &&& new.tier == HarnessTier::Supervisor && !fits ==> answer is Err
                && answer->Err_0.category == ErrorCategory::Conflict
            &&& fits ==> {
                let s = after.sessions.last();
                &&& answer is Ok
                &&& after.harnesses.len() == m.harnesses.len() + 1
                &&& after.harnesses.last().key == new.key
                &&& after.harnesses.last().tier == HarnessTier::Supervisor
                &&& after.sessions.len() == m.sessions.len() + 1
                &&& s.id == new.session
                &&& s.harness == new.key
                &&& s.capability == new.capability
                &&& s.presence == Presence::Online
                &&& s.activity == Activity::Idle
                &&& !s.ended
                &&& is_usable(s)
            }
        }),
{
    let p = is_live_supervisor(m);
    assert(some_where(m.sessions, p) == is_supervised(m)) by {
        if some_where(m.sessions, p) {
            let s = choose|s: int| 0 <= s < m.sessions.len() && p(#[trigger] m.sessions[s]);
            first_says(m.harnesses, is_harness(m.sessions[s].harness));
            let h = first_where(m.harnesses, is_harness(m.sessions[s].harness))->0;
            assert(serves(m, m.sessions[s].harness, h));
        }
        if is_supervised(m) {
            let (s, h) = choose|s: int, h: int|
                0 <= s < m.sessions.len() && !(#[trigger] m.sessions[s]).ended
                    && #[trigger] serves(m, m.sessions[s].harness, h) && m.harnesses[h].tier
                    == HarnessTier::Supervisor;
            first_found(m.harnesses, is_harness(m.sessions[s].harness), h);
            assert(p(m.sessions[s]));
        }
    }
    first_says(m.harnesses, is_harness(new.key));
    if exists|h: int| 0 <= h < m.harnesses.len() && (#[trigger] m.harnesses[h]).key == new.key {
        let h = choose|h: int|
            0 <= h < m.harnesses.len() && (#[trigger] m.harnesses[h]).key == new.key;
        assert(is_harness(new.key)(m.harnesses[h]));
    }
    first_missing(m.sessions, is_session(new.session));
}

/// A Worker starts with a Session that is starting. A new Worker is registered; a registered one
/// has to keep its definition, and must not have a Session that lives, unless that one is starting
/// with the same profile and its capability can be handed out again: then it is the answer.
pub proof fn workers_start_one_session(
    m: Model,
    new: NewHarness,
    profile: TextKey,
    issued: bool,
    now: u64,
    h: int,
    s: int,
)
    requires
        new.tier == HarnessTier::Worker,
        forall|j: int| 0 <= j < m.sessions.len() ==> (#[trigger] m.sessions[j]).id != new.session,
    ensures
        ({
            let answer = start_worker(m, new, profile, issued, now);
            let (after, id) = answer->Ok_0;
            let row = after.sessions.last();
            let unknown = forall|j: int|
                0 <= j < m.harnesses.len() ==> (#[trigger] m.harnesses[j]).key != new.key;
            let known = serves(m, new.key, h);
            let same = known && m.harnesses[h].definition == new.definition;
            let resting = forall|j: int|
                0 <= j < m.sessions.len() ==> (#[trigger] m.sessions[j]).harness != new.key
                    || m.sessions[j].ended;
            let newest = 0 <= s < m.sessions.len() && m.sessions[s].harness == new.key
                && !m.sessions[s].ended && forall|j: int|
                s < j < m.sessions.len() ==> (#[trigger] m.sessions[j]).harness != new.key
                    || m.sessions[j].ended;
            let again = newest && m.sessions[s].presence == Presence::Starting
                && m.sessions[s].profile == Some(profile) && issued;
            &&& unknown || (same && resting) ==> {
                &&& answer is Ok
                &&& id == new.session
                &&& after.sessions.len() == m.sessions.len() + 1
                &&& row.id == new.session
                &&& row.harness == new.key
                &&& row.capability == new.capability
                &&& row.presence == Presence::Starting
                &&& row.activity == Activity::Starting
                &&& row.profile == Some(profile)
                &&& !row.ended
            }
            &&& unknown ==> after.harnesses.len() == m.harnesses.len() + 1
                && after.harnesses.last().key == new.key && after.harnesses.last().tier
                == HarnessTier::Worker
            &&& same ==> answer is Ok ==> after.harnesses == m.harnesses
            &&& known && !same ==> answer is Err && answer->Err_0.category
                == ErrorCategory::Conflict
            &&& same && again ==> answer == Ok::<(Model, HarnessSessionId), Refusal>(
                (m, m.sessions[s].id),
            )
            &&& same && newest && !again ==> answer is Err && answer->Err_0.category
                == ErrorCategory::Conflict
        }),
{
    let p = is_harness(new.key);
    let live = is_live_session_of(new.key);
    if serves(m, new.key, h) {
        first_found(m.harnesses, p, h);
    }
    if forall|j: int| 0 <= j < m.harnesses.len() ==> (#[trigger] m.harnesses[j]).key != new.key {
        first_missing(m.harnesses, p);
    }
    if forall|j: int|
        0 <= j < m.sessions.len() ==> (#[trigger] m.sessions[j]).harness != new.key
            || m.sessions[j].ended {
        last_missing(m.sessions, live);
    }
    if 0 <= s < m.sessions.len() && m.sessions[s].harness == new.key && !m.sessions[s].ended && (
    forall|j: int|
        s < j < m.sessions.len() ==> (#[trigger] m.sessions[j]).harness != new.key
            || m.sessions[j].ended) {
        last_found(m.sessions, live, s);
    }
    first_missing(m.sessions, is_session(new.session));
}

/// A start that is given up fails the starting Sessions of that Worker, and no others.
pub proof fn starts_are_given_up(m: Model, worker: HarnessKey, diagnostic: Seq<char>, now: u64)
    requires
        !blank(diagnostic),
        byte_count(diagnostic) <= 4096,
    ensures
        ({
            let (after, answer) = abort_worker_start(m, worker, diagnostic, now);
            &&& after.sessions.len() == m.sessions.len()
            &&& forall|s: int|
                0 <= s < m.sessions.len() ==> {
                    let (a, b) = (m.sessions[s], #[trigger] after.sessions[s]);
                    if a.harness == worker && !a.ended && a.presence == Presence::Starting {
                        b.id == a.id && b.ended && b.presence == Presence::Failed && b.activity
                            == Activity::Failed
                    } else {
                        b == a
                    }
                }
            &&& (forall|s: int|
                0 <= s < m.sessions.len() ==> (#[trigger] m.sessions[s]).harness != worker
                    || m.sessions[s].ended || m.sessions[s].presence != Presence::Starting)
                ==> answer is Err && answer->Err_0.category == ErrorCategory::InvalidState
        }),
{
    if forall|s: int|
        0 <= s < m.sessions.len() ==> (#[trigger] m.sessions[s]).harness != worker
            || m.sessions[s].ended || m.sessions[s].presence != Presence::Starting {
        no_session_counts_nothing(m.sessions, is_starting_of(worker));
    }
}

proof fn no_session_counts_nothing(s: Seq<SessionRow>, p: spec_fn(SessionRow) -> bool)
    requires
        forall|j: int| 0 <= j < s.len() ==> !p(#[trigger] s[j]),
    ensures
        count_where(s, p) == 0,
    decreases s.len(),
{
    if s.len() > 0 {
        assert(!p(s[s.len() - 1]));
        no_session_counts_nothing(s.drop_last(), p);
    }
}

/// An idle Worker may exchange its Session for a fresh one of the next generation with the same
/// profile; a Worker that is busy, or not idle and online, may not, and the Supervisor never.
pub proof fn idle_workers_rotate_their_session(
    m: Model,
    actor: AuthenticatedActor,
    session: HarnessSessionId,
    capability: TextKey,
    now: u64,
    s: int,
)
    requires
        lives(m, actor.session, s),
        m.sessions[s].generation < u64::MAX,
        forall|j: int| 0 <= j < m.sessions.len() ==> (#[trigger] m.sessions[j]).id != session,
    ensures
        ({
            let answer = rotate_session(m, actor, session, capability, now);
            let after = answer->Ok_0;
            let n = m.sessions.len() as int;
            let worker = actor.tier == HarnessTier::Worker;
            let busy = exists|j: int|
                0 <= j < m.tasks.len() && is_busy_with(#[trigger] m.tasks[j], actor.id);
            let idle = m.sessions[s].presence == Presence::Online && m.sessions[s].activity
                == Activity::Idle;
            &&& !worker ==> answer is Err && answer->Err_0.category == ErrorCategory::Forbidden
            &&& worker && busy ==> answer is Err && answer->Err_0.category
                == ErrorCategory::InvalidState
            &&& worker && !busy && idle ==> {
                &&& answer is Ok
                &&& after.sessions.len() == n + 1
                &&& after.sessions[s].ended
                &&& after.sessions[s].presence == Presence::Stopped
                &&& after.sessions[n].id == session
                &&& after.sessions[n].harness == actor.id
                &&& after.sessions[n].capability == capability
                &&& after.sessions[n].generation == m.sessions[s].generation + 1
                &&& after.sessions[n].profile == m.sessions[s].profile
                &&& after.sessions[n].presence == Presence::Starting
                &&& !after.sessions[n].ended
                &&& forall|j: int| 0 <= j < n && j != s ==> #[trigger] after.sessions[j]
                    == m.sessions[j]
            }
            &&& worker && !busy && (forall|j: int|
                0 <= j < n && (#[trigger] m.sessions[j]).id == actor.session && !m.sessions[j].ended
                    ==> m.sessions[j].presence != Presence::Online || m.sessions[j].activity
                    != Activity::Idle) ==> answer is Err && answer->Err_0.category
                == ErrorCategory::InvalidState
        }),
{
    busy_workers_are_found(m, actor.id);
    let p = is_idle_online(actor.session);
    if m.sessions[s].presence == Presence::Online && m.sessions[s].activity == Activity::Idle {
        first_found(m.sessions, p, s);
    }
    if forall|j: int|
        0 <= j < m.sessions.len() && (#[trigger] m.sessions[j]).id == actor.session
            && !m.sessions[j].ended ==> m.sessions[j].presence != Presence::Online
            || m.sessions[j].activity != Activity::Idle {
        assert forall|j: int| 0 <= j < m.sessions.len() implies !p(#[trigger] m.sessions[j]) by {}
        first_missing(m.sessions, p);
    }
    first_missing(m.sessions, is_session(session));
}

/// A Worker Host that starts becomes online and idle when it is ready; it keeps what it found out,
/// and takes the rest from its profile and its registration.
pub proof fn ready_workers_are_online(m: Model, actor: AuthenticatedActor, now: u64, s: int, h: int)
    requires
        lives(m, actor.session, s),
        serves(m, m.sessions[s].harness, h),
    ensures
        ({
            let answer = host_ready(m, actor, now);
            let after = answer->Ok_0;
            let (a, b) = (m.sessions[s], after.sessions[s]);
            let worker = actor.tier == HarnessTier::Worker;
            &&& !worker ==> answer is Err && answer->Err_0.category == ErrorCategory::Forbidden
            &&& worker && a.presence != Presence::Starting ==> answer is Err
                && answer->Err_0.category == ErrorCategory::InvalidState
            &&& worker && a.presence == Presence::Starting ==> {
                &&& answer is Ok
                &&& renews(m, after, s)
                &&& b.presence == Presence::Online
                &&& b.activity == Activity::Idle
                &&& !b.ended
                &&& a.health == NativeSessionHealth::Ambiguous ==> b.health
                    == NativeSessionHealth::Healthy
                &&& a.health != NativeSessionHealth::Ambiguous ==> b.health == a.health
                &&& b.model == if a.model is Some {
                    a.model
                } else {
                    m.harnesses[h].model
                }
                &&& b.tool_policy == if a.tool_policy is Some {
                    a.tool_policy
                } else {
                    a.profile
                }
                &&& b.profile == a.profile
                &&& b.last_seen == now
            }
        }),
{
    live_rows_are_found(m, actor.session, s);
    first_found(m.harnesses, is_harness(m.sessions[s].harness), h);
}

/// What a starting Worker Host found out about its native Session is kept, and its Session is
/// healthy with the tool policy of its profile; the evidence has to name an absolute executable, a
/// version, checks that succeeded and the one schema version, and a Session that is past its start
/// is refused.
pub proof fn compatibility_is_kept_with_the_session(
    m: Model,
    actor: AuthenticatedActor,
    executable: Seq<char>,
    version: Seq<char>,
    found: NativeFindings,
    evidence: HarnessCompatibilityEvidenceV1,
    size: usize,
    now: u64,
    s: int,
)
    requires
        lives(m, actor.session, s),
    ensures
        ({
            let answer = host_compatibility(
                m,
                actor,
                executable,
                version,
                found,
                evidence,
                size,
                now,
            );
            let after = answer->Ok_0;
            let (a, b) = (m.sessions[s], after.sessions[s]);
            let worker = actor.tier == HarnessTier::Worker;
            let sound = has_prefix(executable, "/"@) && !blank(version) && byte_count(version)
                <= 4096 && evidence.schema_version == 1 && evidence.successful_checks@.len() > 0
                && size <= 65_536;
            &&& !worker ==> answer is Err && answer->Err_0.category == ErrorCategory::Forbidden
            &&& worker && !sound ==> answer is Err && answer->Err_0.category
                == ErrorCategory::InvalidInput
            &&& worker && sound && a.presence != Presence::Starting ==> answer is Err
                && answer->Err_0.category == ErrorCategory::InvalidState
            &&& worker && sound && a.presence == Presence::Starting ==> {
                &&& answer is Ok
                &&& renews(m, after, s)
                &&& b.presence == Presence::Starting
                &&& b.native_session == found.native_session
                &&& b.native_thread == found.native_thread
                &&& b.model == found.model
                &&& b.executable == Some(found.executable)
                &&& b.version == Some(found.version)
                &&& b.compatibility == Some(found.evidence)
                &&& b.safe_compaction == found.safe_compaction
                &&& b.health == NativeSessionHealth::Healthy
                &&& b.tool_policy == a.profile
            }
        }),
{
    live_rows_are_found(m, actor.session, s);
}

/// The newest report of an Adapter is what its Session shows; presence, activity and identity stay.
pub proof fn reports_are_shown_by_their_session(
    m: Model,
    actor: AuthenticatedActor,
    state: ReportedState,
    now: u64,
    s: int,
)
    ensures
        ({
            let answer = adapter_snapshot(m, actor, state, now);
            let after = answer->Ok_0;
            let (a, b) = (m.sessions[s], after.sessions[s]);
            let r = state.snapshot;
            let small = (r.context_tokens is Some ==> r.context_tokens->0 <= i64::MAX) && (
            r.context_window is Some ==> r.context_window->0 <= i64::MAX);
            &&& !state.percent_in_range ==> answer is Err && answer->Err_0.category
                == ErrorCategory::InvalidInput
            &&& state.percent_in_range && !small ==> answer is Err
            &&& state.percent_in_range && small && is_over(m, actor.session) ==> answer is Err
                && answer->Err_0.category == ErrorCategory::InvalidState
            &&& state.percent_in_range && small && lives(m, actor.session, s) ==> {
                &&& answer is Ok
                &&& renews(m, after, s)
                &&& b.snapshot == Some(r)
                &&& b.health == r.health
                &&& b.compactions == r.compactions
                &&& b.context_tokens == r.context_tokens
                &&& b.context_window == r.context_window
                &&& b.context_percent == r.context_percent
                &&& b.presence == a.presence
                &&& b.activity == a.activity
                &&& b.ended == a.ended
            }
        }),
{
    live_rows_are_found(m, actor.session, s);
}

// ---------------------------------------------------------------------------------------------
// The managed Supervisor
// ---------------------------------------------------------------------------------------------

/// Events and attempts that were under way are in doubt; the others stay.
pub open spec fn doubts(a: Model, b: Model) -> bool {
    &&& b.events.len() == a.events.len()
    &&& b.event_attempts.len() == a.event_attempts.len()
    &&& forall|e: int|
        0 <= e < a.events.len() ==> {
            let x = a.events[e];
            let y = #[trigger] b.events[e];
            if x.state == SupervisorEventDeliveryState::Dispatching || x.state
                == SupervisorEventDeliveryState::Accepted {
                y.state == SupervisorEventDeliveryState::Unknown && y.id == x.id
            } else {
                y == x
            }
        }
    &&& forall|k: int|
        0 <= k < a.event_attempts.len() ==> {
            let x = a.event_attempts[k];
            let y = #[trigger] b.event_attempts[k];
            if x.state == AttemptState::Dispatching || x.state == AttemptState::Accepted {
                y.state == AttemptState::Unknown && y.wrote && y.doubt is Some && y.id == x.id
            } else {
                y == x
            }
        }
}

/// When the managed Supervisor connects, its Session is online with the native identities that it
/// found, and what was on its way before is in doubt; when it is lost, its Session is disconnected
/// and what was on its way is in doubt as well. A Worker may report neither.
pub proof fn supervisors_connect_and_disconnect(
    m: Model,
    actor: AuthenticatedActor,
    native_session: Option<TextKey>,
    native_thread: Option<TextKey>,
    diagnostic: Option<Seq<char>>,
    why: Option<Wording>,
    now: u64,
    s: int,
)
    requires
        diagnostic is Some ==> byte_count(diagnostic->0) <= 16_384,
    ensures
        ({
            let on = supervisor_binding(m, actor, native_session, native_thread, now);
            let off = supervisor_disconnected(m, actor, diagnostic, why, now);
            let own = actor.tier == HarnessTier::Supervisor;
            let (a, b) = (on->Ok_0.sessions[s], off->Ok_0.sessions[s]);
            &&& !own ==> on is Err && on->Err_0.category == ErrorCategory::Forbidden && off is Err
                && off->Err_0.category == ErrorCategory::Forbidden
            &&& own && is_over(m, actor.session) ==> on is Err && on->Err_0.category
                == ErrorCategory::InvalidState && off is Err && off->Err_0.category
                == ErrorCategory::InvalidState
            &&& own && lives(m, actor.session, s) ==> {
                &&& on is Ok
                &&& renews(m, on->Ok_0, s)
                &&& doubts(m, on->Ok_0)
                &&& a.presence == Presence::Online
                &&& a.activity == Activity::Idle
                &&& a.health == NativeSessionHealth::Healthy
                &&& a.native_session == native_session
                &&& a.native_thread == native_thread
                &&& !a.ended
                &&& off is Ok
                &&& renews(m, off->Ok_0, s)
                &&& doubts(m, off->Ok_0)
                &&& b.presence == Presence::Disconnected
                &&& b.health == NativeSessionHealth::Ambiguous
                &&& b.snapshot is None
                &&& !b.ended
            }
        }),
{
    live_rows_are_found(m, actor.session, s);
    let dropped = drop_connection(
        m,
        actor.connection,
        or_else(why, Wording::SupervisorDisconnected),
    );
    let words = or_else(why, Wording::SupervisorDisconnectedDispatching);
    note_timeouts_frame(m, m.event_attempts.len(), Wording::SupervisorReconnected);
    note_timeouts_frame(dropped, dropped.event_attempts.len(), words);
    if lives(m, actor.session, s) {
        assert(lives(dropped, actor.session, s));
        live_rows_are_found(dropped, actor.session, s);
    }
}

/// A reconnection may be claimed for a Supervisor Session that lost its connection, or whose claim
/// before it came to nothing for 45 seconds; it is won where there is exactly one such Session,
/// which nobody can claim again for that time.
pub proof fn reconnections_are_claimed_once(m: Model, now: u64, s: int, later: u64)
    requires
        0 <= s < m.sessions.len(),
    ensures
        ({
            let (after, won) = prepare_reconnect(m, now);
            let x = m.sessions[s];
            let lost = x.tier == HarnessTier::Supervisor && !x.ended && (x.presence
                == Presence::Disconnected || (x.presence == Presence::Reconnecting && x.last_seen
                + 45_000_000 <= now));
            &&& after.sessions.len() == m.sessions.len()
            &&& lost ==> after.sessions[s].presence == Presence::Reconnecting
                && after.sessions[s].last_seen == now && after.sessions[s].id == x.id
            &&& !lost ==> after.sessions[s] == x
            &&& lost && now <= later && later < now + 45_000_000 ==> prepare_reconnect(
                after,
                later,
            ).0.sessions[s] == after.sessions[s]
            &&& won ==> exists|j: int|
                0 <= j < m.sessions.len() && (#[trigger] after.sessions[j]).presence
                    == Presence::Reconnecting && after.sessions[j].last_seen == now
        }),
{
    let p = is_reconnectable(now);
    let (after, won) = prepare_reconnect(m, now);
    if won {
        counted_sessions_exist(m.sessions, p);
        let j = choose|j: int| 0 <= j < m.sessions.len() && p(#[trigger] m.sessions[j]);
        assert(after.sessions[j].presence == Presence::Reconnecting);
    }
}

proof fn counted_sessions_exist(s: Seq<SessionRow>, p: spec_fn(SessionRow) -> bool)
    requires
        count_where(s, p) > 0,
    ensures
        some_where(s, p),
    decreases s.len(),
{
    let t = s.drop_last();
    if p(s.last()) {
        assert(p(s[s.len() - 1]));
    } else {
        counted_sessions_exist(t, p);
        let j = choose|j: int| 0 <= j < t.len() && p(#[trigger] t[j]);
        assert(p(s[j]));
    }
}

// ---------------------------------------------------------------------------------------------
// Ends
// ---------------------------------------------------------------------------------------------

/// A Task that a stopped Worker is asked to give up.
pub open spec fn is_stopped_with(t: TaskRow, worker: HarnessKey) -> bool {
    t.worker == worker && (t.state == TaskState::Dispatching || t.state == TaskState::Working
        || t.state == TaskState::Waiting || t.state == TaskState::Reviewing)
}

/// A Worker that is asked to stop shows it, and its first Task that is under way is asked to stop
/// with it. A Worker without a Session that lives cannot be asked.
pub proof fn stopped_workers_give_up_their_work(
    m: Model,
    worker: HarnessKey,
    now: u64,
    s: int,
    i: int,
)
    ensures
        ({
            let answer = stop_worker(m, worker, now);
            let after = answer->Ok_0;
            let offline = forall|j: int|
                0 <= j < m.sessions.len() ==> (#[trigger] m.sessions[j]).harness != worker
                    || m.sessions[j].tier != HarnessTier::Worker || m.sessions[j].ended;
            let newest = 0 <= s < m.sessions.len() && m.sessions[s].harness == worker
                && m.sessions[s].tier == HarnessTier::Worker && !m.sessions[s].ended && forall|
                j: int,
            |
                s < j < m.sessions.len() ==> (#[trigger] m.sessions[j]).harness != worker
                    || m.sessions[j].tier != HarnessTier::Worker || m.sessions[j].ended;
            let first = 0 <= i < m.tasks.len() && stands(m, m.tasks[i].id, i) && is_stopped_with(
                m.tasks[i],
                worker,
            ) && forall|j: int| 0 <= j < i ==> !is_stopped_with(#[trigger] m.tasks[j], worker);
            let resting = forall|j: int|
                0 <= j < m.tasks.len() ==> !is_stopped_with(#[trigger] m.tasks[j], worker);
            &&& offline ==> answer is Err && answer->Err_0.category == ErrorCategory::TargetOffline
            &&& newest && (first || resting) ==> answer is Ok && renews(m, after, s)
                && after.sessions[s].activity == Activity::Stopping && after.sessions[s].presence
                == m.sessions[s].presence && !after.sessions[s].ended
            &&& newest && first ==> after.tasks == m.tasks.update(
                i,
                TaskRow { state: TaskState::Cancelling, ..m.tasks[i] },
            )
            &&& newest && resting ==> after.tasks == m.tasks
        }),
{
    let p = is_live_worker_session(worker);
    let q = is_stoppable_of(worker);
    if forall|j: int|
        0 <= j < m.sessions.len() ==> (#[trigger] m.sessions[j]).harness != worker
            || m.sessions[j].tier != HarnessTier::Worker || m.sessions[j].ended {
        last_missing(m.sessions, p);
    }
    let newest = 0 <= s < m.sessions.len() && m.sessions[s].harness == worker && m.sessions[s].tier
        == HarnessTier::Worker && !m.sessions[s].ended && forall|j: int|
        s < j < m.sessions.len() ==> (#[trigger] m.sessions[j]).harness != worker
            || m.sessions[j].tier != HarnessTier::Worker || m.sessions[j].ended;
    if newest {
        last_found(m.sessions, p, s);
    }
    let first = 0 <= i < m.tasks.len() && stands(m, m.tasks[i].id, i) && is_stopped_with(
        m.tasks[i],
        worker,
    ) && forall|j: int| 0 <= j < i ==> !is_stopped_with(#[trigger] m.tasks[j], worker);
    if first {
        assert forall|j: int| 0 <= j < i implies !q(#[trigger] m.tasks[j]) by {
            assert(!is_stopped_with(m.tasks[j], worker));
        }
        first_found(m.tasks, q, i);
        places_are_found(m, m.tasks[i].id, i);
        transition_frame(m, m.tasks[i].id, m.tasks[i].state, TaskState::Cancelling, false);
    }
    if forall|j: int| 0 <= j < m.tasks.len() ==> !is_stopped_with(#[trigger] m.tasks[j], worker) {
        assert forall|j: int| 0 <= j < m.tasks.len() implies !q(#[trigger] m.tasks[j]) by {
            assert(!is_stopped_with(m.tasks[j], worker));
        }
        first_missing(m.tasks, q);
    }
}

/// A workspace is given up by the Supervisor whose Session lives, exactly where every Task ended,
/// no Hold and no lease is in force, and no Session of a Worker lives.
pub proof fn quiet_workspaces_are_given_up(m: Model, actor: AuthenticatedActor, now: u64, s: int)
    requires
        lives(m, actor.session, s),
        m.sessions[s].tier == HarnessTier::Supervisor,
    ensures
        ({
            let answer = deactivate(m, actor, now);
            let after = answer->Ok_0;
            let quiet = (forall|i: int|
                0 <= i < m.tasks.len() ==> (#[trigger] m.tasks[i]).state == TaskState::Approved
                    || m.tasks[i].state == TaskState::Cancelled || m.tasks[i].state
                    == TaskState::Failed) && (forall|h: int|
                0 <= h < m.holds.len() ==> (#[trigger] m.holds[h]).cleared) && (forall|l: int|
                0 <= l < m.leases.len() ==> (#[trigger] m.leases[l]).released) && (forall|j: int|
                0 <= j < m.sessions.len() ==> (#[trigger] m.sessions[j]).tier
                    != HarnessTier::Worker || m.sessions[j].ended);
            &&& !quiet ==> answer is Err && answer->Err_0.category == ErrorCategory::Conflict
            &&& quiet ==> answer is Ok && renews(m, after, s) && after.sessions[s].ended
                && after.sessions[s].presence == Presence::Stopped
        }),
{
    live_rows_are_found(m, actor.session, s);
    let unfinished = exists|i: int|
        0 <= i < m.tasks.len() && (#[trigger] m.tasks[i]).state != TaskState::Approved
            && m.tasks[i].state != TaskState::Cancelled && m.tasks[i].state != TaskState::Failed;
    assert(unfinished == some_where(m.tasks, is_unfinished())) by {
        if unfinished {
            let i = choose|i: int|
                0 <= i < m.tasks.len() && (#[trigger] m.tasks[i]).state != TaskState::Approved
                    && m.tasks[i].state != TaskState::Cancelled && m.tasks[i].state
                    != TaskState::Failed;
            assert(is_unfinished()(m.tasks[i]));
        }
        if some_where(m.tasks, is_unfinished()) {
            let i = choose|i: int|
                0 <= i < m.tasks.len() && is_unfinished()(#[trigger] m.tasks[i]);
            assert(m.tasks[i].state != TaskState::Approved);
        }
    }
    let held = exists|h: int| 0 <= h < m.holds.len() && !(#[trigger] m.holds[h]).cleared;
    assert(held == some_where(m.holds, is_active_hold())) by {
        if held {
            let h = choose|h: int| 0 <= h < m.holds.len() && !(#[trigger] m.holds[h]).cleared;
            assert(is_active_hold()(m.holds[h]));
        }
        if some_where(m.holds, is_active_hold()) {
            let h = choose|h: int|
                0 <= h < m.holds.len() && is_active_hold()(#[trigger] m.holds[h]);
            assert(!m.holds[h].cleared);
        }
    }
    let leased = exists|l: int| 0 <= l < m.leases.len() && !(#[trigger] m.leases[l]).released;
    assert(leased == some_where(m.leases, is_active_lease())) by {
        if leased {
            let l = choose|l: int| 0 <= l < m.leases.len() && !(#[trigger] m.leases[l]).released;
            assert(is_active_lease()(m.leases[l]));
        }
        if some_where(m.leases, is_active_lease()) {
            let l = choose|l: int|
                0 <= l < m.leases.len() && is_active_lease()(#[trigger] m.leases[l]);
            assert(!m.leases[l].released);
        }
    }
    let manned = exists|j: int|
        0 <= j < m.sessions.len() && (#[trigger] m.sessions[j]).tier == HarnessTier::Worker
            && !m.sessions[j].ended;
    assert(manned == some_where(m.sessions, is_any_live_worker())) by {
        if manned {
            let j = choose|j: int|
                0 <= j < m.sessions.len() && (#[trigger] m.sessions[j]).tier == HarnessTier::Worker
                    && !m.sessions[j].ended;
            assert(is_any_live_worker()(m.sessions[j]));
        }
        if some_where(m.sessions, is_any_live_worker()) {
            let j = choose|j: int|
                0 <= j < m.sessions.len() && is_any_live_worker()(#[trigger] m.sessions[j]);
            assert(m.sessions[j].tier == HarnessTier::Worker);
        }
    }
}

/// A Worker Host leaves cleanly only without work under way; its Session ends as stopped, or as
/// failed where it did not leave cleanly. The Supervisor cannot leave that way.
pub proof fn worker_hosts_leave(
    m: Model,
    actor: AuthenticatedActor,
    clean: bool,
    now: u64,
    s: int,
)
    requires
        lives(m, actor.session, s),
    ensures
        ({
            let answer = host_stopped(m, actor, clean, now);
            let after = answer->Ok_0;
            let worker = actor.tier == HarnessTier::Worker;
            let busy = exists|j: int|
                0 <= j < m.tasks.len() && is_busy_with(#[trigger] m.tasks[j], actor.id);
            &&& !worker ==> answer is Err && answer->Err_0.category == ErrorCategory::Forbidden
            &&& worker && clean && busy ==> answer is Err && answer->Err_0.category
                == ErrorCategory::InvalidState
            &&& worker && !(clean && busy) ==> {
                &&& answer is Ok
                &&& renews(m, after, s)
                &&& after.sessions[s].ended
                &&& after.sessions[s].presence == if clean {
                    Presence::Stopped
                } else {
                    Presence::Failed
                }
                &&& after.tasks == m.tasks
                &&& after.holds == m.holds
            }
        }),
{
    busy_workers_are_found(m, actor.id);
    live_rows_are_found(m, actor.session, s);
    let dropped = drop_connection(
        m,
        actor.connection,
        Wording::HostStopped { clean },
    );
    assert(lives(dropped, actor.session, s));
    live_rows_are_found(dropped, actor.session, s);
}

/// The events of a Worker Host are numbered from one without a gap: the next number is recorded, a
/// number that was recorded is accepted again only with what was recorded, and any other is
/// refused.
pub proof fn host_events_follow_each_other(
    m: Model,
    actor: AuthenticatedActor,
    sequence: u64,
    content: TextKey,
    size: usize,
    now: u64,
    s: int,
    k: int,
)
    requires
        lives(m, actor.session, s),
        size <= 65_536,
        sequence <= i64::MAX,
    ensures
        ({
            let answer = host_event(m, actor, sequence, content, size, now);
            let after = answer->Ok_0;
            let own = actor.tier == HarnessTier::Worker && sequence > 0;
            let last = m.sessions[s].event_sequence;
            let recorded = 0 <= k < m.host_events.len() && m.host_events[k].session
                == actor.session && m.host_events[k].sequence == sequence && forall|j: int|
                0 <= j < k ==> (#[trigger] m.host_events[j]).session != actor.session
                    || m.host_events[j].sequence != sequence;
            &&& !own ==> answer is Err && answer->Err_0.category == ErrorCategory::InvalidInput
            &&& own && sequence > last + 1 ==> answer is Err && answer->Err_0.category
                == ErrorCategory::Conflict
            &&& own && sequence == last + 1 ==> answer is Ok && renews(m, after, s)
                && after.sessions[s].event_sequence == sequence && after.host_events.len()
                == m.host_events.len() + 1 && after.host_events.last().session == actor.session
                && after.host_events.last().sequence == sequence && after.host_events.last().content
                == content
            &&& own && sequence <= last && recorded && m.host_events[k].content == content
                ==> answer == Ok::<Model, Refusal>(m)
            &&& own && sequence <= last && recorded && m.host_events[k].content != content
                ==> answer is Err && answer->Err_0.category == ErrorCategory::Conflict
        }),
{
    live_rows_are_found(m, actor.session, s);
    let p = is_host_event(actor.session, sequence);
    if 0 <= k < m.host_events.len() && m.host_events[k].session == actor.session
        && m.host_events[k].sequence == sequence && (forall|j: int|
        0 <= j < k ==> (#[trigger] m.host_events[j]).session != actor.session
            || m.host_events[j].sequence != sequence) {
        first_found(m.host_events, p, k);
    }
}

} // verus!

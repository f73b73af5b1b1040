//! Host connections: generations, leases, expiry, and who an incoming command belongs to.
use vstd::prelude::*;

use crate::contract::{HarnessTier, Presence, TaskState};
use crate::error::{outcome, refusal, refuse, CoordinatorError, ErrorCategory, Refusal};
use crate::identity::{HarnessSessionId, HostConnectionId, MessageId};
use crate::ledger::dispatch::is_root_message;
use crate::ledger::evidence::{concludes, NewObservation};
use crate::ledger::hosts::{
    closed, diagnostic_fits, fits_diagnostic, given, given_text, is_active_connection, live,
    optional_view, set_live, supervisor_disconnected, with_status,
};
use crate::ledger::reconcile::mark_delivery_unknown;
use crate::ledger::sessions::identity_used;
use crate::ledger::shutdown::host_failed;
use crate::ledger::steps::{plain, revision_overflow};
use crate::ledger::{is_harness, is_live_session, is_session, settles, Ledger, Model};
use crate::rows::{
    AuthenticatedActor, ConnectionRow, ConnectionStatus, HarnessKey, SessionRow, TaskRow, TextKey,
    Wording,
};
use crate::select::{
    count_step, count_where, first_found, first_missing, first_says, first_where, keep_step,
    keep_where, some_where, update_where,
};
use crate::text::{blank, byte_count, byte_len, is_blank};

verus! {

// ---------------------------------------------------------------------------------------------
// Binding and renewal
// ---------------------------------------------------------------------------------------------

/// A new Host connection with its lease.
#[derive(Debug, Clone, Copy, PartialEq, Eq, Structural)]
pub struct NewConnection {
    pub id: HostConnectionId,
    pub capability: TextKey,
    pub lease_seconds: u32,
    /// Number of what the Host calls itself.
    pub instance: TextKey,
}

pub open spec fn is_connection(id: HostConnectionId) -> spec_fn(ConnectionRow) -> bool {
    |c: ConnectionRow| c.id == id
}

pub open spec fn is_active_of(session: HarnessSessionId) -> spec_fn(ConnectionRow) -> bool {
    |c: ConnectionRow| c.session == session && c.status == ConnectionStatus::Active
}

/// The instant at which a lease that is renewed now runs out.
pub open spec fn lease_end(now: u64, seconds: u32) -> u64 {
    (now + seconds * 1_000_000) as u64
}

/// A new connection of a live Session: the generation moves on and every earlier connection is
/// superseded.
pub open spec fn bind_connection(
    m: Model,
    actor: AuthenticatedActor,
    instance: Seq<char>,
    new: NewConnection,
    now: u64,
) -> Result<(Model, u64), Refusal> {
    if blank(instance) || byte_count(instance) > 256 {
        Err(
            refusal(
                ErrorCategory::InvalidInput,
                "Host instance ID must contain 1 to 256 bytes"@,
            ),
        )
    } else if !(1 <= new.lease_seconds <= 300) {
        Err(
            refusal(
                ErrorCategory::InvalidInput,
                "Host lease must be between 1 and 300 seconds"@,
            ),
        )
    } else {
        match first_where(m.sessions, is_live_session(actor.session)) {
            None => Err(
                refusal(
                    ErrorCategory::InvalidState,
                    "Host connection requires a live Coordinator Session"@,
                ),
            ),
            Some(i) => {
                let s = m.sessions[i];
                let generation = (s.generation + 1) as u64;
                if s.generation == u64::MAX {
                    Err(revision_overflow())
                } else if some_where(m.connections, is_connection(new.id)) {
                    Err(identity_used())
                } else {
                    Ok(
                        (
                            Model {
                                sessions: m.sessions.update(
                                    i,
                                    SessionRow { generation, last_seen: now, ..s },
                                ),
                                connections: update_where(
                                    m.connections,
                                    is_active_of(actor.session),
                                    |c: ConnectionRow| superseded(c),
                                ).push(
                                    ConnectionRow {
                                        id: new.id,
                                        session: actor.session,
                                        generation,
                                        capability: new.capability,
                                        lease_seconds: new.lease_seconds,
                                        expires_at: lease_end(now, new.lease_seconds),
                                        status: ConnectionStatus::Active,
                                        instance: new.instance,
                                        reason: None,
                                    },
                                ),
                                ..m
                            },
                            generation,
                        ),
                    )
                }
            },
        }
    }
}

pub open spec fn superseded(c: ConnectionRow) -> ConnectionRow {
    closed(c, Some(Wording::Superseded))
}

pub open spec fn seen_at(s: SessionRow, now: u64) -> SessionRow {
    SessionRow { last_seen: now, ..s }
}

pub open spec fn connection_required() -> Refusal {
    refusal(ErrorCategory::Forbidden, "a Host connection is required"@)
}

/// The lease of an active connection renewed.
pub open spec fn renew_connection(m: Model, actor: AuthenticatedActor, now: u64) -> Result<
    (Model, u64),
    Refusal,
> {
    match actor.connection {
        None => Err(connection_required()),
        Some(id) => match first_where(m.connections, is_active_connection(id)) {
            None => Err(
                refusal(ErrorCategory::Unauthenticated, "Host connection has expired"@),
            ),
            Some(i) => {
                let end = lease_end(now, m.connections[i].lease_seconds);
                Ok(
                    (
                        set_live(
                            Model {
                                connections: m.connections.update(
                                    i,
                                    ConnectionRow { expires_at: end, ..m.connections[i] },
                                ),
                                ..m
                            },
                            actor.session,
                            |s: SessionRow| seen_at(s, now),
                        ),
                        end,
                    ),
                )
            },
        },
    }
}

/// An active connection closed by its Host; `key` is the number of the diagnostic, if there is one.
pub open spec fn disconnect_connection(
    m: Model,
    actor: AuthenticatedActor,
    diagnostic: Option<Seq<char>>,
    key: Option<TextKey>,
) -> Result<Model, Refusal> {
    if !diagnostic_fits(diagnostic) {
        Err(refusal(ErrorCategory::InvalidInput, "Host disconnect diagnostic exceeds 16 KiB"@))
    } else {
        match actor.connection {
            None => Err(connection_required()),
            Some(id) => match first_where(m.connections, is_active_connection(id)) {
                None => Err(
                    refusal(ErrorCategory::Unauthenticated, "Host connection is no longer active"@),
                ),
                Some(i) => Ok(
                    Model {
                        connections: m.connections.update(
                            i,
                            closed(m.connections[i], given(key)),
                        ),
                        ..m
                    },
                ),
            },
        }
    }
}

fn end_of_lease(now: u64, seconds: u32) -> (r: u64)
    requires
        now <= 0x7fff_ffff_ffff_ffff,
    ensures
        r == lease_end(now, seconds),
{
    assert(seconds * 1_000_000 <= 0xffff_ffff * 1_000_000) by (nonlinear_arith)
        requires
            seconds <= 0xffff_ffff,
    ;
    now + (seconds as u64) * 1_000_000
}

impl Ledger {
    fn has_connection(&self, id: HostConnectionId) -> (r: bool)
        ensures
            r == some_where(self@.connections, is_connection(id)),
    {
        let mut i: usize = 0;
        while i < self.connections.len()
            invariant
                i <= self.connections.len(),
                forall|j: int| 0 <= j < i ==> !is_connection(id)(#[trigger] self.connections@[j]),
            decreases self.connections.len() - i,
        {
            if self.connections[i].id == id {
                assert(is_connection(id)(self@.connections[i as int]));
                return true;
            }
            i += 1;
        }
        false
    }

    fn supersede_connections(&mut self, session: HarnessSessionId)
        ensures
            final(self)@ == (Model {
                connections: update_where(
                    old(self)@.connections,
                    is_active_of(session),
                    |c: ConnectionRow| superseded(c),
                ),
                ..old(self)@
            }),
    {
        let n = self.connections.len();
        let mut i: usize = 0;
        while i < n
            invariant
                i <= n,
                n == self.connections.len(),
                n == old(self).connections.len(),
                self@ == (Model { connections: self.connections@, ..old(self)@ }),
                forall|j: int|
                    0 <= j < i ==> #[trigger] self.connections@[j] == (if is_active_of(session)(
                        old(self).connections@[j],
                    ) {
                        superseded(old(self).connections@[j])
                    } else {
                        old(self).connections@[j]
                    }),
                forall|j: int|
                    i <= j < n ==> #[trigger] self.connections@[j] == old(self).connections@[j],
            decreases n - i,
        {
            let c = self.connections[i];
            if c.session == session && c.status == ConnectionStatus::Active {
                self.connections.set(
                    i,
                    ConnectionRow {
                        status: ConnectionStatus::Disconnected { settling: false },
                        reason: Some(Wording::Superseded),
                        ..c
                    },
                );
            }
            i += 1;
        }
        assert(self.connections@ =~= update_where(
            old(self).connections@,
            is_active_of(session),
            |c: ConnectionRow| superseded(c),
        ));
    }

    /// Binds a new connection to a live Session; gives its generation.
    pub fn bind_host_connection(
        &mut self,
        actor: AuthenticatedActor,
        instance: &str,
        new: NewConnection,
        now: u64,
    ) -> (r: Result<u64, CoordinatorError>)
        requires
            now <= 0x7fff_ffff_ffff_ffff,
        ensures
            settles(
                r,
                old(self)@,
                final(self)@,
                bind_connection(old(self)@, actor, instance@, new, now),
            ),
    {
        if is_blank(instance) || byte_len(instance) > 256 {
            return Err(
                refuse(ErrorCategory::InvalidInput, "Host instance ID must contain 1 to 256 bytes"),
            );
        }
        if new.lease_seconds < 1 || new.lease_seconds > 300 {
            return Err(
                refuse(ErrorCategory::InvalidInput, "Host lease must be between 1 and 300 seconds"),
            );
        }
        let i = match self.live_session_position(actor.session) {
            None => {
                return Err(
                    refuse(
                        ErrorCategory::InvalidState,
                        "Host connection requires a live Coordinator Session",
                    ),
                );
            },
            Some(i) => i,
        };
        let s = self.sessions[i];
        if s.generation == u64::MAX {
            return Err(
                refuse(
                    ErrorCategory::StorageFailure,
                    "out of range integral type conversion attempted",
                ),
            );
        }
        if self.has_connection(new.id) {
            return Err(refuse(ErrorCategory::StorageFailure, "identity is already in use"));
        }
        let generation: u64 = s.generation + 1;
        let expires_at = end_of_lease(now, new.lease_seconds);
        self.supersede_connections(actor.session);
        self.sessions.set(i, SessionRow { generation, last_seen: now, ..s });
        self.connections.push(
            ConnectionRow {
                id: new.id,
                session: actor.session,
                generation,
                capability: new.capability,
                lease_seconds: new.lease_seconds,
                expires_at,
                status: ConnectionStatus::Active,
                instance: new.instance,
                reason: None,
            },
        );
        Ok(generation)
    }

    /// Renews the lease of the connection that the command came through; gives its end.
    pub fn renew_host_connection(&mut self, actor: AuthenticatedActor, now: u64) -> (r: Result<
        u64,
        CoordinatorError,
    >)
        requires
            now <= 0x7fff_ffff_ffff_ffff,
        ensures
            settles(r, old(self)@, final(self)@, renew_connection(old(self)@, actor, now)),
    {
        let id = match actor.connection {
            None => {
                return Err(refuse(ErrorCategory::Forbidden, "a Host connection is required"));
            },
            Some(id) => id,
        };
        let i = match self.active_connection_position(id) {
            None => {
                return Err(refuse(ErrorCategory::Unauthenticated, "Host connection has expired"));
            },
            Some(i) => i,
        };
        let c = self.connections[i];
        let expires_at = end_of_lease(now, c.lease_seconds);
        self.connections.set(i, ConnectionRow { expires_at, ..c });
        if let Some(k) = self.live_session_position(actor.session) {
            let s = self.sessions[k];
            self.sessions.set(k, SessionRow { last_seen: now, ..s });
        }
        Ok(expires_at)
    }

    /// Closes the connection that the command came through.
    pub fn disconnect_host_connection(
        &mut self,
        actor: AuthenticatedActor,
        diagnostic: Option<&str>,
        key: Option<TextKey>,
    ) -> (r: Result<(), CoordinatorError>)
        ensures
            settles(
                r,
                old(self)@,
                final(self)@,
                plain(disconnect_connection(old(self)@, actor, optional_view(diagnostic), key)),
            ),
    {
        if !fits_diagnostic(diagnostic) {
            return Err(
                refuse(ErrorCategory::InvalidInput, "Host disconnect diagnostic exceeds 16 KiB"),
            );
        }
        let id = match actor.connection {
            None => {
                return Err(refuse(ErrorCategory::Forbidden, "a Host connection is required"));
            },
            Some(id) => id,
        };
        let i = match self.active_connection_position(id) {
            None => {
                return Err(
                    refuse(ErrorCategory::Unauthenticated, "Host connection is no longer active"),
                );
            },
            Some(i) => i,
        };
        let c = self.connections[i];
        self.connections.set(
            i,
            ConnectionRow {
                status: ConnectionStatus::Disconnected { settling: false },
                reason: given_text(key),
                ..c
            },
        );
        Ok(())
    }
}

// ---------------------------------------------------------------------------------------------
// Expiry
// ---------------------------------------------------------------------------------------------

/// The Session and the Harness behind a connection, while it is the Session's newest one.
pub open spec fn behind(m: Model, c: ConnectionRow) -> Option<(SessionRow, HarnessTier)> {
    match first_where(m.sessions, is_session(c.session)) {
        None => None,
        Some(i) => if m.sessions[i].ended || m.sessions[i].generation != c.generation {
            None
        } else {
            match first_where(m.harnesses, is_harness(m.sessions[i].harness)) {
                None => None,
                Some(h) => Some((m.sessions[i], m.harnesses[h].tier)),
            }
        },
    }
}

/// A connection whose lease ran out, or whose work is still to be settled after that.
pub open spec fn is_stale(m: Model, now: u64) -> spec_fn(ConnectionRow) -> bool {
    |c: ConnectionRow|
        ((c.status == ConnectionStatus::Active && c.expires_at <= now) || c.status
            == ConnectionStatus::Disconnected { settling: true }) && behind(m, c) is Some
}

/// A lease that ends later.
pub open spec fn ends_after(expires_at: u64) -> spec_fn(ConnectionRow) -> bool {
    |c: ConnectionRow| c.expires_at > expires_at
}

/// Behind every connection whose lease does not end later.
pub open spec fn expiry_place(s: Seq<ConnectionRow>, c: ConnectionRow) -> int {
    match first_where(s, ends_after(c.expires_at)) {
        Some(i) => i,
        None => s.len() as int,
    }
}

/// The stale ones among the first `n` connections, by the end of their leases.
pub open spec fn stale_upto(m: Model, now: u64, n: nat) -> Seq<ConnectionRow>
    decreases n,
{
    if n == 0 {
        Seq::empty()
    } else {
        let before = stale_upto(m, now, (n - 1) as nat);
        let c = m.connections[n - 1];
        if is_stale(m, now)(c) {
            before.insert(expiry_place(before, c), c)
        } else {
            before
        }
    }
}

/// The stale connections of the table, by the end of their leases.
pub open spec fn stale(m: Model, now: u64) -> Seq<ConnectionRow> {
    stale_upto(m, now, m.connections.len())
}

/// Ordered by the end of the lease.
pub open spec fn by_expiry(s: Seq<ConnectionRow>) -> bool {
    forall|i: int, j: int|
        0 <= i < j < s.len() ==> (#[trigger] s[i]).expires_at <= (#[trigger] s[j]).expires_at
}

pub open spec fn is_expired_active(id: HostConnectionId, now: u64) -> spec_fn(
    ConnectionRow,
) -> bool {
    |c: ConnectionRow| c.id == id && c.status == ConnectionStatus::Active && c.expires_at <= now
}

pub open spec fn is_settling(id: HostConnectionId) -> spec_fn(ConnectionRow) -> bool {
    |c: ConnectionRow|
        c.id == id && c.status == ConnectionStatus::Disconnected { settling: true }
}

/// A stale connection taken for settlement, unless it was renewed or settled meanwhile.
pub open spec fn claim_stale(m: Model, c: ConnectionRow, now: u64) -> Option<Model> {
    if c.status != ConnectionStatus::Active {
        if first_where(m.connections, is_settling(c.id)) is Some {
            Some(m)
        } else {
            None
        }
    } else {
        match first_where(m.connections, is_expired_active(c.id, now)) {
            None => None,
            Some(i) => Some(
                Model {
                    connections: m.connections.update(
                        i,
                        with_status(
                            m.connections[i],
                            ConnectionStatus::Disconnected { settling: true },
                            Some(Wording::SettlementPending),
                        ),
                    ),
                    ..m
                },
            ),
        }
    }
}

/// A connection whose work is settled.
pub open spec fn expire(m: Model, id: HostConnectionId) -> Model {
    match first_where(m.connections, is_settling(id)) {
        None => m,
        Some(i) => Model {
            connections: m.connections.update(
                i,
                with_status(
                    m.connections[i],
                    ConnectionStatus::Expired,
                    Some(Wording::SettlementComplete),
                ),
            ),
            ..m
        },
    }
}

/// A Task on its way to a Worker, with a root Message.
pub open spec fn is_under_way_to(m: Model, worker: HarnessKey) -> spec_fn(TaskRow) -> bool {
    |t: TaskRow|
        t.worker == worker && t.state == TaskState::Dispatching && first_where(
            m.messages,
            is_root_message(t.id),
        ) is Some
}

/// The root Message on its way to a Worker.
pub open spec fn message_under_way(m: Model, worker: HarnessKey) -> Option<MessageId> {
    match first_where(m.tasks, is_under_way_to(m, worker)) {
        None => None,
        Some(i) => Some(
            m.messages[first_where(m.messages, is_root_message(m.tasks[i].id))->0].id,
        ),
    }
}

/// What a lost lease means for the Host behind it.
pub open spec fn settle_lost_host(
    m: Model,
    actor: AuthenticatedActor,
    captured: Result<NewObservation, Refusal>,
    now: u64,
) -> (Model, Result<(), Refusal>) {
    if actor.tier == HarnessTier::Supervisor {
        match supervisor_disconnected(
            m,
            actor,
            Some("managed Supervisor presence lease expired"@),
            Some(Wording::SupervisorLeaseExpired),
            now,
        ) {
            Ok(next) => (next, Ok(())),
            Err(e) => (m, Err(e)),
        }
    } else {
        match message_under_way(m, actor.id) {
            Some(message) => match mark_delivery_unknown(
                m,
                actor,
                message,
                "Worker Host presence expired during native Task dispatch"@,
                Wording::DispatchLeaseExpired,
            ) {
                Ok((next, _)) => (next, Ok(())),
                Err(e) => (m, Err(e)),
            },
            None => host_failed(
                m,
                actor,
                "Worker Host presence lease expired without a clean disconnect"@,
                Wording::WorkerLeaseExpired,
                captured,
                now,
            ),
        }
    }
}

/// The Host behind a connection.
pub open spec fn lost_host(m: Model, c: ConnectionRow) -> AuthenticatedActor {
    let (s, tier) = behind(m, c)->0;
    AuthenticatedActor { id: s.harness, tier, session: s.id, connection: Some(c.id) }
}

/// The settlement of one stale connection with the Host behind it; says whether it was still stale.
pub open spec fn reap(
    m: Model,
    c: ConnectionRow,
    actor: AuthenticatedActor,
    captured: Result<NewObservation, Refusal>,
    now: u64,
) -> (Model, Result<bool, Refusal>) {
    match claim_stale(m, c, now) {
        Some(claimed) => {
            let (settled, r) = settle_lost_host(claimed, actor, captured, now);
            match r {
                Err(e) => (settled, Err(e)),
                Ok(_) => (expire(settled, c.id), Ok(true)),
            }
        },
        None => (m, Ok(false)),
    }
}

/// What was captured for the `i`th stale connection.
pub open spec fn evidence_for(evidence: Seq<Result<NewObservation, Refusal>>, i: int) -> Result<
    NewObservation,
    Refusal,
> {
    if 0 <= i < evidence.len() {
        evidence[i]
    } else {
        Err(refusal(ErrorCategory::StorageFailure, "repository evidence is missing"@))
    }
}

/// The first `n` of the stale connections of `m` settled, one after the other, until one cannot be;
/// with the number of those that were still stale.
pub open spec fn reap_upto(
    m: Model,
    evidence: Seq<Result<NewObservation, Refusal>>,
    now: u64,
    n: nat,
) -> (Model, Result<u32, Refusal>)
    decreases n,
{
    if n == 0 {
        (m, Ok(0))
    } else {
        let (before, r) = reap_upto(m, evidence, now, (n - 1) as nat);
        match r {
            Err(e) => (before, Err(e)),
            Ok(count) => {
                let c = stale(m, now)[n - 1];
                let (next, taken) = reap(
                    before,
                    c,
                    lost_host(m, c),
                    evidence_for(evidence, n - 1),
                    now,
                );
                (
                    next,
                    match taken {
                        Err(e) => Err(e),
                        Ok(taken) => Ok(
                            if taken && count < u32::MAX {
                                (count + 1) as u32
                            } else {
                                count
                            },
                        ),
                    },
                )
            },
        }
    }
}

/// Every stale connection of the table settled, then every overtaken one expired.
pub open spec fn reap_all(m: Model, evidence: Seq<Result<NewObservation, Refusal>>, now: u64) -> (
    Model,
    Result<u32, Refusal>,
) {
    let (settled, r) = reap_upto(m, evidence, now, stale(m, now).len());
    match r {
        Err(e) => (settled, Err(e)),
        Ok(count) => (expire_overtaken(settled), Ok(count)),
    }
}

/// What a list of captures says.
pub open spec fn outcomes(list: Seq<Result<NewObservation, CoordinatorError>>) -> Seq<
    Result<NewObservation, Refusal>,
> {
    Seq::new(list.len(), |i: int| outcome(list[i]))
}

/// A connection left in settlement whose Session ended or moved on.
pub open spec fn is_overtaken(m: Model) -> spec_fn(ConnectionRow) -> bool {
    |c: ConnectionRow|
        c.status == ConnectionStatus::Disconnected { settling: true } && (match first_where(
            m.sessions,
            is_session(c.session),
        ) {
            Some(i) => m.sessions[i].ended || m.sessions[i].generation != c.generation,
            None => false,
        })
}

pub open spec fn overtaken(c: ConnectionRow) -> ConnectionRow {
    with_status(c, ConnectionStatus::Expired, Some(Wording::SettlementOvertaken))
}

/// Every overtaken connection expired.
pub open spec fn expire_overtaken(m: Model) -> Model {
    Model {
        connections: update_where(
            m.connections,
            is_overtaken(m),
            |c: ConnectionRow| overtaken(c),
        ),
        ..m
    }
}

/// A settlement that failed is the last one.
proof fn reap_stops(
    m: Model,
    evidence: Seq<Result<NewObservation, Refusal>>,
    now: u64,
    k: nat,
    n: nat,
)
    requires
        k <= n,
        reap_upto(m, evidence, now, k).1 is Err,
    ensures
        reap_upto(m, evidence, now, n) == reap_upto(m, evidence, now, k),
    decreases n,
{
    if k < n {
        reap_stops(m, evidence, now, k, (n - 1) as nat);
    }
}

proof fn inserted_by_expiry(s: Seq<ConnectionRow>, c: ConnectionRow)
    requires
        by_expiry(s),
    ensures
        0 <= expiry_place(s, c) <= s.len(),
        by_expiry(s.insert(expiry_place(s, c), c)),
        s.insert(expiry_place(s, c), c).to_multiset() == s.to_multiset().insert(c),
{
    first_says(s, ends_after(c.expires_at));
    let k = expiry_place(s, c);
    let r = s.insert(k, c);
    vstd::seq_lib::to_multiset_insert(s, k, c);
    assert forall|x: int, y: int| 0 <= x < y < r.len() implies (#[trigger] r[x]).expires_at <= (
    #[trigger] r[y]).expires_at by {
        if y < k {
            assert(s[x].expires_at <= s[y].expires_at);
        } else if y == k {
            assert(!ends_after(c.expires_at)(s[x]));
        } else if x == k {
            assert(ends_after(c.expires_at)(s[k]));
            if y - 1 > k {
                assert(s[k].expires_at <= s[y - 1].expires_at);
            }
        } else if x < k {
            assert(s[x].expires_at <= s[y - 1].expires_at);
        } else {
            assert(s[x - 1].expires_at <= s[y - 1].expires_at);
        }
    }
}

/// The list of stale connections holds each of them once, by the end of their leases.
pub proof fn stale_connections_are_listed(m: Model, now: u64, n: nat)
    requires
        n <= m.connections.len(),
    ensures
        by_expiry(stale_upto(m, now, n)),
        stale_upto(m, now, n).to_multiset() == keep_where(
            m.connections.take(n as int),
            is_stale(m, now),
        ).to_multiset(),
        forall|i: int|
            0 <= i < stale_upto(m, now, n).len() ==> is_stale(m, now)(
                #[trigger] stale_upto(m, now, n)[i],
            ),
    decreases n,
{
    if n == 0 {
        assert(m.connections.take(0) =~= Seq::empty());
    } else {
        stale_connections_are_listed(m, now, (n - 1) as nat);
        keep_step(m.connections, is_stale(m, now), n - 1);
        let before = stale_upto(m, now, (n - 1) as nat);
        let c = m.connections[n - 1];
        keep_where(m.connections.take(n - 1), is_stale(m, now)).to_multiset_ensures();
        if is_stale(m, now)(c) {
            inserted_by_expiry(before, c);
        }
    }
}

impl Ledger {
    /// The Session with an identity, ended or not.
    pub fn session(&self, id: HarnessSessionId) -> (r: Option<SessionRow>)
        ensures
            r == (match first_where(self@.sessions, is_session(id)) {
                Some(i) => Some(self@.sessions[i]),
                None => None,
            }),
    {
        let mut i: usize = 0;
        while i < self.sessions.len()
            invariant
                i <= self.sessions.len(),
                forall|j: int| 0 <= j < i ==> !is_session(id)(#[trigger] self.sessions@[j]),
            decreases self.sessions.len() - i,
        {
            if self.sessions[i].id == id {
                proof {
                    first_found(self@.sessions, is_session(id), i as int);
                }
                return Some(self.sessions[i]);
            }
            i += 1;
        }
        proof {
            first_missing(self@.sessions, is_session(id));
        }
        None
    }

    /// Whether a Session is on record.
    pub fn has_session(&self, id: HarnessSessionId) -> (r: bool)
        ensures
            r == first_where(self@.sessions, is_session(id)) is Some,
    {
        self.session(id).is_some()
    }

    fn behind(&self, c: ConnectionRow) -> (r: Option<(SessionRow, HarnessTier)>)
        ensures
            r == behind(self@, c),
    {
        match self.session(c.session) {
            None => None,
            Some(s) => if s.ended || s.generation != c.generation {
                None
            } else {
                match self.harness(s.harness) {
                    None => None,
                    Some(h) => Some((s, h.tier)),
                }
            },
        }
    }

    /// The stale connections, by the end of their leases.
    pub fn stale_connections(&self, now: u64) -> (r: Vec<ConnectionRow>)
        ensures
            r@ == stale(self@, now),
            by_expiry(r@),
            r@.to_multiset() == keep_where(self@.connections, is_stale(self@, now)).to_multiset(),
            forall|i: int| 0 <= i < r.len() ==> behind(self@, #[trigger] r@[i]) is Some,
    {
        let mut r: Vec<ConnectionRow> = Vec::new();
        let mut i: usize = 0;
        while i < self.connections.len()
            invariant
                i <= self.connections.len(),
                r@ == stale_upto(self@, now, i as nat),
            decreases self.connections.len() - i,
        {
            let c = self.connections[i];
            let due = match c.status {
                ConnectionStatus::Active => c.expires_at <= now,
                ConnectionStatus::Disconnected { settling } => settling,
                ConnectionStatus::Expired => false,
            };
            if due && self.behind(c).is_some() {
                let mut k: usize = 0;
                while k < r.len() && r[k].expires_at <= c.expires_at
                    invariant
                        k <= r.len(),
                        forall|j: int|
                            0 <= j < k ==> !ends_after(c.expires_at)(#[trigger] r@[j]),
                    decreases r.len() - k,
                {
                    k += 1;
                }
                proof {
                    if k < r.len() {
                        first_found(r@, ends_after(c.expires_at), k as int);
                    } else {
                        first_missing(r@, ends_after(c.expires_at));
                    }
                }
                r.insert(k, c);
            }
            i += 1;
        }
        proof {
            stale_connections_are_listed(self@, now, i as nat);
            assert(self@.connections.take(i as int) =~= self@.connections);
        }
        r
    }

    fn claim_stale(&mut self, c: ConnectionRow, now: u64) -> (r: bool)
        ensures
            match claim_stale(old(self)@, c, now) {
                Some(next) => r && final(self)@ == next,
                None => !r && final(self)@ == old(self)@,
            },
    {
        if c.status != ConnectionStatus::Active {
            return self.settling_position(c.id).is_some();
        }
        let mut i: usize = 0;
        while i < self.connections.len()
            invariant
                i <= self.connections.len(),
                self@ == old(self)@,
                c.status == ConnectionStatus::Active,
                forall|j: int|
                    0 <= j < i ==> !is_expired_active(c.id, now)(#[trigger] self.connections@[j]),
            decreases self.connections.len() - i,
        {
            let row = self.connections[i];
            if row.id == c.id && row.status == ConnectionStatus::Active && row.expires_at <= now {
                proof {
                    first_found(self@.connections, is_expired_active(c.id, now), i as int);
                }
                self.connections.set(
                    i,
                    ConnectionRow {
                        status: ConnectionStatus::Disconnected { settling: true },
                        reason: Some(Wording::SettlementPending),
                        ..row
                    },
                );
                return true;
            }
            i += 1;
        }
        proof {
            first_missing(self@.connections, is_expired_active(c.id, now));
        }
        false
    }

    fn settling_position(&self, id: HostConnectionId) -> (r: Option<usize>)
        ensures
            match r {
                Some(i) => i < self.connections.len() && first_where(
                    self@.connections,
                    is_settling(id),
                ) == Some(i as int),
                None => first_where(self@.connections, is_settling(id)) is None,
            },
    {
        let mut i: usize = 0;
        while i < self.connections.len()
            invariant
                i <= self.connections.len(),
                forall|j: int| 0 <= j < i ==> !is_settling(id)(#[trigger] self.connections@[j]),
            decreases self.connections.len() - i,
        {
            let c = self.connections[i];
            let settling = match c.status {
                ConnectionStatus::Disconnected { settling } => settling,
                _ => false,
            };
            if c.id == id && settling {
                proof {
                    first_found(self@.connections, is_settling(id), i as int);
                }
                return Some(i);
            }
            i += 1;
        }
        proof {
            first_missing(self@.connections, is_settling(id));
        }
        None
    }

    fn expire(&mut self, id: HostConnectionId)
        ensures
            final(self)@ == expire(old(self)@, id),
    {
        if let Some(i) = self.settling_position(id) {
            let c = self.connections[i];
            self.connections.set(
                i,
                ConnectionRow {
                    status: ConnectionStatus::Expired,
                    reason: Some(Wording::SettlementComplete),
                    ..c
                },
            );
        }
    }

    /// The root Message on its way to a Worker.
    pub fn message_under_way(&self, worker: HarnessKey) -> (r: Option<MessageId>)
        ensures
            r == message_under_way(self@, worker),
    {
        let mut i: usize = 0;
        while i < self.tasks.len()
            invariant
                i <= self.tasks.len(),
                forall|j: int|
                    0 <= j < i ==> !is_under_way_to(self@, worker)(#[trigger] self.tasks@[j]),
            decreases self.tasks.len() - i,
        {
            let t = self.tasks[i];
            if t.worker == worker && t.state == TaskState::Dispatching {
                if let Some(id) = self.root_message(t.id) {
                    proof {
                        first_found(self@.tasks, is_under_way_to(self@, worker), i as int);
                    }
                    return Some(id);
                }
            }
            i += 1;
        }
        proof {
            first_missing(self@.tasks, is_under_way_to(self@, worker));
        }
        None
    }

    fn settle_lost_host(
        &mut self,
        actor: AuthenticatedActor,
        captured: Result<NewObservation, CoordinatorError>,
        now: u64,
    ) -> (r: Result<(), CoordinatorError>)
        ensures
            concludes(
                r,
                final(self)@,
                settle_lost_host(old(self)@, actor, outcome(captured), now),
            ),
    {
        if actor.tier == HarnessTier::Supervisor {
            return self.record_supervisor_disconnected(
                actor,
                Some("managed Supervisor presence lease expired"),
                Some(Wording::SupervisorLeaseExpired),
                now,
            );
        }
        match self.message_under_way(actor.id) {
            Some(message) => match self.mark_delivery_unknown(
                actor,
                message,
                "Worker Host presence expired during native Task dispatch",
                Wording::DispatchLeaseExpired,
            ) {
                Ok(_) => Ok(()),
                Err(e) => Err(e),
            },
            None => self.record_host_failed(
                actor,
                "Worker Host presence lease expired without a clean disconnect",
                Wording::WorkerLeaseExpired,
                captured,
                now,
            ),
        }
    }

    fn reap(
        &mut self,
        c: ConnectionRow,
        actor: AuthenticatedActor,
        captured: Result<NewObservation, CoordinatorError>,
        now: u64,
    ) -> (r: Result<bool, CoordinatorError>)
        ensures
            concludes(r, final(self)@, reap(old(self)@, c, actor, outcome(captured), now)),
    {
        if !self.claim_stale(c, now) {
            return Ok(false);
        }
        match self.settle_lost_host(actor, captured, now) {
            Err(e) => Err(e),
            Ok(_) => {
                self.expire(c.id);
                Ok(true)
            },
        }
    }

    /// The Hosts behind stale connections.
    fn lost_hosts(&self, list: &Vec<ConnectionRow>) -> (r: Vec<AuthenticatedActor>)
        requires
            forall|i: int| 0 <= i < list.len() ==> behind(self@, #[trigger] list@[i]) is Some,
        ensures
            r.len() == list.len(),
            forall|i: int| 0 <= i < r.len() ==> #[trigger] r@[i] == lost_host(self@, list@[i]),
    {
        let mut r: Vec<AuthenticatedActor> = Vec::new();
        let mut i: usize = 0;
        while i < list.len()
            invariant
                i <= list.len(),
                r.len() == i,
                forall|j: int| 0 <= j < list.len() ==> behind(self@, #[trigger] list@[j]) is Some,
                forall|j: int| 0 <= j < i ==> #[trigger] r@[j] == lost_host(self@, list@[j]),
            decreases list.len() - i,
        {
            let c = list[i];
            if let Some((s, tier)) = self.behind(c) {
                r.push(
                    AuthenticatedActor {
                        id: s.harness,
                        tier,
                        session: s.id,
                        connection: Some(c.id),
                    },
                );
            }
            i += 1;
        }
        r
    }

    /// Settles every stale connection, with what was captured for each of them in the order of
    /// [`Ledger::stale_connections`], and expires the overtaken ones; gives the number of those
    /// that were settled.
    pub fn reap_stale_host_connections(
        &mut self,
        evidence: Vec<Result<NewObservation, CoordinatorError>>,
        now: u64,
    ) -> (r: Result<u32, CoordinatorError>)
        ensures
            concludes(r, final(self)@, reap_all(old(self)@, outcomes(evidence@), now)),
    {
        let list = self.stale_connections(now);
        let hosts = self.lost_hosts(&list);
        let ghost all = outcomes(evidence@);
        let mut rest = evidence;
        let mut count: u32 = 0;
        let mut i: usize = 0;
        while i < list.len()
            invariant
                i <= list.len(),
                all == outcomes(evidence@),
                list.len() == hosts.len(),
                list@ == stale(old(self)@, now),
                forall|j: int|
                    0 <= j < hosts.len() ==> #[trigger] hosts@[j] == lost_host(
                        old(self)@,
                        list@[j],
                    ),
                rest.len() == (if i <= all.len() {
                    all.len() - i
                } else {
                    0
                }),
                forall|j: int| 0 <= j < rest.len() ==> outcome(#[trigger] rest@[j]) == all[i + j],
                reap_upto(old(self)@, all, now, i as nat) == (
                    self@,
                    Ok::<u32, Refusal>(count),
                ),
            decreases list.len() - i,
        {
            let ghost before = rest@;
            let captured = if rest.len() > 0 {
                let first = rest.remove(0);
                assert(first == before[0]);
                assert forall|j: int| 0 <= j < rest.len() implies outcome(#[trigger] rest@[j])
                    == all[i + 1 + j] by {
                    assert(rest@[j] == before[j + 1]);
                }
                first
            } else {
                Err(refuse(ErrorCategory::StorageFailure, "repository evidence is missing"))
            };
            assert(outcome(captured) == evidence_for(all, i as int));
            match self.reap(list[i], hosts[i], captured, now) {
                Err(e) => {
                    proof {
                        reap_stops(old(self)@, all, now, (i + 1) as nat, list.len() as nat);
                    }
                    return Err(e);
                },
                Ok(taken) => {
                    if taken && count < u32::MAX {
                        count = count + 1;
                    }
                },
            }
            i += 1;
        }
        self.expire_overtaken_connections();
        Ok(count)
    }

    /// Expires every connection left in settlement whose Session ended or moved on.
    pub fn expire_overtaken_connections(&mut self)
        ensures
            final(self)@ == expire_overtaken(old(self)@),
    {
        let n = self.connections.len();
        let mut i: usize = 0;
        while i < n
            invariant
                i <= n,
                n == self.connections.len(),
                n == old(self).connections.len(),
                self@ == (Model { connections: self.connections@, ..old(self)@ }),
                forall|j: int|
                    0 <= j < i ==> #[trigger] self.connections@[j] == (if is_overtaken(old(self)@)(
                        old(self).connections@[j],
                    ) {
                        overtaken(old(self).connections@[j])
                    } else {
                        old(self).connections@[j]
                    }),
                forall|j: int|
                    i <= j < n ==> #[trigger] self.connections@[j] == old(self).connections@[j],
            decreases n - i,
        {
            let c = self.connections[i];
            let settling = match c.status {
                ConnectionStatus::Disconnected { settling } => settling,
                _ => false,
            };
            let moved_on = match self.session(c.session) {
                Some(s) => s.ended || s.generation != c.generation,
                None => false,
            };
            if settling && moved_on {
                self.connections.set(
                    i,
                    ConnectionRow {
                        status: ConnectionStatus::Expired,
                        reason: Some(Wording::SettlementOvertaken),
                        ..c
                    },
                );
            }
            i += 1;
        }
        assert(self.connections@ =~= update_where(
            old(self).connections@,
            is_overtaken(old(self)@),
            |c: ConnectionRow| overtaken(c),
        ));
    }
}

// ---------------------------------------------------------------------------------------------
// Reconnection
// ---------------------------------------------------------------------------------------------

/// A Supervisor Session that a reconnection may be started for: none is under way, or none was
/// heard of for 45 seconds.
pub open spec fn is_reconnectable(now: u64) -> spec_fn(SessionRow) -> bool {
    |s: SessionRow|
        s.tier == HarnessTier::Supervisor && !s.ended && (s.presence == Presence::Disconnected || (
        s.presence == Presence::Reconnecting && s.last_seen + 45_000_000 <= now))
}

pub open spec fn reconnecting(s: SessionRow, now: u64) -> SessionRow {
    SessionRow { presence: Presence::Reconnecting, last_seen: now, ..s }
}

/// The claim of a reconnection, and whether it was won.
pub open spec fn prepare_reconnect(m: Model, now: u64) -> (Model, bool) {
    (
        Model {
            sessions: update_where(
                m.sessions,
                is_reconnectable(now),
                |s: SessionRow| reconnecting(s, now),
            ),
            ..m
        },
        count_where(m.sessions, is_reconnectable(now)) == 1,
    )
}

impl Ledger {
    /// Claims the reconnection of the managed Supervisor; says whether the claim was won.
    pub fn prepare_supervisor_reconnect(&mut self, now: u64) -> (r: bool)
        ensures
            (final(self)@, r) == prepare_reconnect(old(self)@, now),
    {
        let n = self.sessions.len();
        let mut changed: usize = 0;
        let mut i: usize = 0;
        while i < n
            invariant
                i <= n,
                changed <= i,
                n == self.sessions.len(),
                n == old(self).sessions.len(),
                changed == count_where(old(self)@.sessions.take(i as int), is_reconnectable(now)),
                self@ == (Model { sessions: self.sessions@, ..old(self)@ }),
                forall|j: int|
                    0 <= j < i ==> #[trigger] self.sessions@[j] == (if is_reconnectable(now)(
                        old(self).sessions@[j],
                    ) {
                        reconnecting(old(self).sessions@[j], now)
                    } else {
                        old(self).sessions@[j]
                    }),
                forall|j: int| i <= j < n ==> #[trigger] self.sessions@[j] == old(self).sessions@[j],
            decreases n - i,
        {
            proof {
                count_step(old(self)@.sessions, is_reconnectable(now), i as int);
            }
            let s = self.sessions[i];
            let silent = now >= 45_000_000 && s.last_seen <= now - 45_000_000;
            if s.tier == HarnessTier::Supervisor && !s.ended && (s.presence
                == Presence::Disconnected || (s.presence == Presence::Reconnecting && silent)) {
                self.sessions.set(
                    i,
                    SessionRow { presence: Presence::Reconnecting, last_seen: now, ..s },
                );
                changed += 1;
            }
            i += 1;
        }
        assert(old(self)@.sessions.take(i as int) =~= old(self)@.sessions);
        assert(self.sessions@ =~= update_where(
            old(self).sessions@,
            is_reconnectable(now),
            |s: SessionRow| reconnecting(s, now),
        ));
        changed == 1
    }
}

// ---------------------------------------------------------------------------------------------
// Authentication
// ---------------------------------------------------------------------------------------------

/// A Session that a capability opens.
pub open spec fn is_opened_by(m: Model, capability: TextKey) -> spec_fn(SessionRow) -> bool {
    |s: SessionRow|
        s.capability == capability && !s.ended && (s.presence == Presence::Starting || s.presence
            == Presence::Online || s.presence == Presence::Disconnected || s.presence
            == Presence::Reconnecting || s.presence == Presence::Offline) && first_where(
            m.harnesses,
            is_harness(s.harness),
        ) is Some
}

/// Who a Session capability belongs to.
pub open spec fn authenticate(m: Model, capability: TextKey) -> Result<AuthenticatedActor, Refusal> {
    match first_where(m.sessions, is_opened_by(m, capability)) {
        None => Err(
            refusal(
                ErrorCategory::Unauthenticated,
                "Session capability is invalid or expired"@,
            ),
        ),
        Some(i) => {
            let s = m.sessions[i];
            Ok(
                AuthenticatedActor {
                    id: s.harness,
                    tier: m.harnesses[first_where(m.harnesses, is_harness(s.harness))->0].tier,
                    session: s.id,
                    connection: None,
                },
            )
        },
    }
}

/// A connection that a Host capability opens: active, within its lease, and the newest one of a
/// live Session.
pub open spec fn is_host_opened_by(m: Model, capability: TextKey, now: u64) -> spec_fn(
    ConnectionRow,
) -> bool {
    |c: ConnectionRow|
        c.capability == capability && c.status == ConnectionStatus::Active && c.expires_at > now
            && behind(m, c) is Some
}

/// Who a Host connection capability belongs to.
pub open spec fn authenticate_host(m: Model, capability: TextKey, now: u64) -> Result<
    AuthenticatedActor,
    Refusal,
> {
    match first_where(m.connections, is_host_opened_by(m, capability, now)) {
        None => Err(
            refusal(
                ErrorCategory::Unauthenticated,
                "Host connection capability is invalid, expired, or superseded"@,
            ),
        ),
        Some(i) => {
            let c = m.connections[i];
            let (s, tier) = behind(m, c)->0;
            Ok(
                AuthenticatedActor {
                    id: s.harness,
                    tier,
                    session: s.id,
                    connection: Some(c.id),
                },
            )
        },
    }
}

impl Ledger {
    /// Finds out who a Session capability belongs to.
    pub fn authenticate(&self, capability: TextKey) -> (r: Result<
        AuthenticatedActor,
        CoordinatorError,
    >)
        ensures
            outcome(r) == authenticate(self@, capability),
    {
        let mut i: usize = 0;
        while i < self.sessions.len()
            invariant
                i <= self.sessions.len(),
                forall|j: int|
                    0 <= j < i ==> !is_opened_by(self@, capability)(#[trigger] self.sessions@[j]),
            decreases self.sessions.len() - i,
        {
            let s = self.sessions[i];
            let open = match s.presence {
                Presence::Starting
                | Presence::Online
                | Presence::Disconnected
                | Presence::Reconnecting
                | Presence::Offline => true,
                _ => false,
            };
            if s.capability == capability && !s.ended && open {
                if let Some(h) = self.harness(s.harness) {
                    proof {
                        first_found(self@.sessions, is_opened_by(self@, capability), i as int);
                    }
                    return Ok(
                        AuthenticatedActor {
                            id: s.harness,
                            tier: h.tier,
                            session: s.id,
                            connection: None,
                        },
                    );
                }
            }
            i += 1;
        }
        proof {
            first_missing(self@.sessions, is_opened_by(self@, capability));
        }
        Err(refuse(ErrorCategory::Unauthenticated, "Session capability is invalid or expired"))
    }

    /// Finds out who a Host connection capability belongs to.
    pub fn authenticate_host(&self, capability: TextKey, now: u64) -> (r: Result<
        AuthenticatedActor,
        CoordinatorError,
    >)
        ensures
            outcome(r) == authenticate_host(self@, capability, now),
    {
        let mut i: usize = 0;
        while i < self.connections.len()
            invariant
                i <= self.connections.len(),
                forall|j: int|
                    0 <= j < i ==> !is_host_opened_by(self@, capability, now)(
                        #[trigger] self.connections@[j],
                    ),
            decreases self.connections.len() - i,
        {
            let c = self.connections[i];
            if c.capability == capability && c.status == ConnectionStatus::Active && c.expires_at
                > now {
                if let Some((s, tier)) = self.behind(c) {
                    proof {
                        first_found(
                            self@.connections,
                            is_host_opened_by(self@, capability, now),
                            i as int,
                        );
                    }
                    return Ok(
                        AuthenticatedActor {
                            id: s.harness,
                            tier,
                            session: s.id,
                            connection: Some(c.id),
                        },
                    );
                }
            }
            i += 1;
        }
        proof {
            first_missing(self@.connections, is_host_opened_by(self@, capability, now));
        }
        Err(
            refuse(
                ErrorCategory::Unauthenticated,
                "Host connection capability is invalid, expired, or superseded",
            ),
        )
    }
}

// ---------------------------------------------------------------------------------------------
// Laws
// ---------------------------------------------------------------------------------------------

/// No two Sessions share an identity.
pub open spec fn unique_sessions(m: Model) -> bool {
    forall|i: int, j: int|
        0 <= i < j < m.sessions.len() ==> (#[trigger] m.sessions[i]).id != (
        #[trigger] m.sessions[j]).id
}

/// Binding a connection fences off every earlier connection of the same Session: its capability
/// opens nothing any more, whatever the time, unless the capability is the new one's own.
pub proof fn binding_fences_earlier_connections(
    m: Model,
    actor: AuthenticatedActor,
    instance: Seq<char>,
    new: NewConnection,
    now: u64,
    capability: TextKey,
    later: u64,
)
    requires
        unique_sessions(m),
        bind_connection(m, actor, instance, new, now) is Ok,
        capability != new.capability,
    ensures
        ({
            let after = bind_connection(m, actor, instance, new, now)->Ok_0.0;
            match authenticate_host(after, capability, later) {
                Ok(who) => who.session != actor.session,
                Err(_) => true,
            }
        }),
{
    let after = bind_connection(m, actor, instance, new, now)->Ok_0.0;
    first_says(after.connections, is_host_opened_by(after, capability, later));
    match first_where(after.connections, is_host_opened_by(after, capability, later)) {
        None => {},
        Some(k) => {
            let c = after.connections[k];
            assert(is_host_opened_by(after, capability, later)(c));
            first_says(after.sessions, is_session(c.session));
            if k < m.connections.len() {
                if m.connections[k].session == actor.session {
                    assert(c.status != ConnectionStatus::Active);
                }
            }
        },
    }
}

/// A connection that was just bound opens its Session until its lease runs out, provided that no
/// other connection carries the same capability.
pub proof fn bound_connections_open(
    m: Model,
    actor: AuthenticatedActor,
    instance: Seq<char>,
    new: NewConnection,
    now: u64,
    later: u64,
)
    requires
        unique_sessions(m),
        bind_connection(m, actor, instance, new, now) is Ok,
        forall|k: int|
            0 <= k < m.connections.len() ==> (#[trigger] m.connections[k]).capability
                != new.capability,
        first_where(
            m.harnesses,
            is_harness(
                m.sessions[first_where(m.sessions, is_live_session(actor.session))->0].harness,
            ),
        ) is Some,
        later < lease_end(now, new.lease_seconds),
    ensures
        ({
            let after = bind_connection(m, actor, instance, new, now)->Ok_0.0;
            &&& authenticate_host(after, new.capability, later) is Ok
            &&& authenticate_host(after, new.capability, later)->Ok_0.session == actor.session
            &&& authenticate_host(after, new.capability, later)->Ok_0.connection == Some(new.id)
        }),
{
    let after = bind_connection(m, actor, instance, new, now)->Ok_0.0;
    let last = after.connections.len() - 1;
    let i = first_where(m.sessions, is_live_session(actor.session))->0;
    first_says(m.sessions, is_live_session(actor.session));
    assert forall|j: int| 0 <= j < i implies !is_session(actor.session)(
        #[trigger] after.sessions[j],
    ) by {
        assert(after.sessions[j] == m.sessions[j]);
        assert(m.sessions[j].id != m.sessions[i].id);
    }
    first_found(after.sessions, is_session(actor.session), i);
    assert forall|j: int| 0 <= j < last implies !is_host_opened_by(after, new.capability, later)(
        #[trigger] after.connections[j],
    ) by {
        assert(after.connections[j].capability == m.connections[j].capability);
    }
    first_found(after.connections, is_host_opened_by(after, new.capability, later), last);
}

} // verus!

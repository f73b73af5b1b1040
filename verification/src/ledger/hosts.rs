//! What Hosts report of themselves: readiness, compatibility, shutdown, failure and events.
use vstd::prelude::*;

use crate::adapter::AdapterCapabilities;
use crate::contract::{
    Activity, HarnessKind, HarnessTier, NativeSessionHealth, Presence, SCHEMA_VERSION,
};
use crate::error::{refusal, refuse, CoordinatorError, ErrorCategory, Refusal};
use crate::identity::{HarnessSessionId, HostConnectionId};
use crate::ledger::events::doubt_unsettled;
use crate::ledger::sessions::ended_as;
use crate::ledger::steps::{plain, revision_overflow};
use crate::ledger::{is_harness, is_live_session, settles, Ledger, Model};
use crate::rows::{
    AdapterRow, AuthenticatedActor, ConnectionRow, ConnectionStatus, SessionRow, TextKey, Wording,
};
use crate::select::{first_found, first_missing, first_where};
use crate::text::{blank, byte_count, byte_len, has_prefix, is_blank, starts_with};

verus! {

// ---------------------------------------------------------------------------------------------
// Steps
// ---------------------------------------------------------------------------------------------

/// A live Session replaced by what `f` makes of it.
pub open spec fn set_live(m: Model, id: HarnessSessionId, f: spec_fn(SessionRow) -> SessionRow) -> Model {
    match first_where(m.sessions, is_live_session(id)) {
        None => m,
        Some(i) => Model { sessions: m.sessions.update(i, f(m.sessions[i])), ..m },
    }
}

/// Whether a Session is live.
pub open spec fn live(m: Model, id: HarnessSessionId) -> bool {
    first_where(m.sessions, is_live_session(id)) is Some
}

/// A live Session ended.
pub open spec fn close_session(
    m: Model,
    id: HarnessSessionId,
    presence: Presence,
    activity: Activity,
    now: u64,
) -> Model {
    set_live(m, id, |s: SessionRow| ended_as(s, presence, activity, now))
}

pub open spec fn is_active_connection(id: HostConnectionId) -> spec_fn(ConnectionRow) -> bool {
    |c: ConnectionRow| c.id == id && c.status == ConnectionStatus::Active
}

pub open spec fn with_status(
    c: ConnectionRow,
    status: ConnectionStatus,
    reason: Option<Wording>,
) -> ConnectionRow {
    ConnectionRow { status, reason, ..c }
}

/// A connection closed for a reason.
pub open spec fn closed(c: ConnectionRow, reason: Option<Wording>) -> ConnectionRow {
    with_status(c, ConnectionStatus::Disconnected { settling: false }, reason)
}

/// The words of a text that was given, if one was.
pub open spec fn given(key: Option<TextKey>) -> Option<Wording> {
    match key {
        Some(text) => Some(Wording::Given { text }),
        None => None,
    }
}

/// The words of a text that was given, if one was.
pub fn given_text(key: Option<TextKey>) -> (r: Option<Wording>)
    ensures
        r == given(key),
{
    match key {
        Some(text) => Some(Wording::Given { text }),
        None => None,
    }
}

/// The connection that a command came through, if any, closed for a reason.
pub open spec fn drop_connection(
    m: Model,
    connection: Option<HostConnectionId>,
    why: Wording,
) -> Model {
    match connection {
        None => m,
        Some(id) => match first_where(m.connections, is_active_connection(id)) {
            None => m,
            Some(i) => Model {
                connections: m.connections.update(
                    i,
                    closed(m.connections[i], Some(why)),
                ),
                ..m
            },
        },
    }
}

impl Ledger {
    /// Ends a live Session.
    pub fn close_session(
        &mut self,
        id: HarnessSessionId,
        presence: Presence,
        activity: Activity,
        now: u64,
    ) -> (r: bool)
        ensures
            final(self)@ == close_session(old(self)@, id, presence, activity, now),
            r == live(old(self)@, id),
    {
        match self.live_session_position(id) {
            None => false,
            Some(i) => {
                let s = self.sessions[i];
                self.sessions.set(
                    i,
                    SessionRow { presence, activity, ended: true, last_seen: now, ..s },
                );
                true
            },
        }
    }

    /// Position of an active connection.
    pub fn active_connection_position(&self, id: HostConnectionId) -> (r: Option<usize>)
        ensures
            match r {
                Some(i) => first_where(self@.connections, is_active_connection(id)) == Some(
                    i as int,
                ) && i < self.connections.len(),
                None => first_where(self@.connections, is_active_connection(id)) is None,
            },
    {
        let mut i: usize = 0;
        while i < self.connections.len()
            invariant
                i <= self.connections.len(),
                forall|j: int|
                    0 <= j < i ==> !is_active_connection(id)(#[trigger] self.connections@[j]),
            decreases self.connections.len() - i,
        {
            let c = self.connections[i];
            if c.id == id && c.status == ConnectionStatus::Active {
                proof {
                    first_found(self@.connections, is_active_connection(id), i as int);
                }
                return Some(i);
            }
            i += 1;
        }
        proof {
            first_missing(self@.connections, is_active_connection(id));
        }
        None
    }

    /// Closes the connection that a command came through.
    pub fn drop_connection(&mut self, connection: Option<HostConnectionId>, why: Wording)
        ensures
            final(self)@ == drop_connection(old(self)@, connection, why),
    {
        if let Some(id) = connection {
            if let Some(i) = self.active_connection_position(id) {
                let c = self.connections[i];
                self.connections.set(
                    i,
                    ConnectionRow {
                        status: ConnectionStatus::Disconnected { settling: false },
                        reason: Some(why),
                        ..c
                    },
                );
            }
        }
    }
}

// ---------------------------------------------------------------------------------------------
// Readiness and compatibility
// ---------------------------------------------------------------------------------------------

/// A starting Session that becomes ready: what is not known yet is filled in from its profile and
/// its registration.
pub open spec fn ready(m: Model, s: SessionRow, now: u64) -> SessionRow {
    SessionRow {
        presence: Presence::Online,
        activity: Activity::Idle,
        health: if s.health == NativeSessionHealth::Ambiguous {
            NativeSessionHealth::Healthy
        } else {
            s.health
        },
        tool_policy: match s.tool_policy {
            Some(t) => Some(t),
            None => s.profile,
        },
        model: match s.model {
            Some(x) => Some(x),
            None => match first_where(m.harnesses, is_harness(s.harness)) {
                Some(h) => m.harnesses[h].model,
                None => None,
            },
        },
        last_seen: now,
        ..s
    }
}

/// A live Session that is still starting.
pub open spec fn starting(m: Model, id: HarnessSessionId) -> bool {
    match first_where(m.sessions, is_live_session(id)) {
        Some(i) => m.sessions[i].presence == Presence::Starting,
        None => false,
    }
}

/// Readiness of a Worker Host.
pub open spec fn host_ready(m: Model, actor: AuthenticatedActor, now: u64) -> Result<Model, Refusal> {
    if actor.tier != HarnessTier::Worker {
        Err(refusal(ErrorCategory::Forbidden, "only a Worker Host may report readiness"@))
    } else if !starting(m, actor.session) {
        Err(
            refusal(
                ErrorCategory::InvalidState,
                "Worker Host readiness requires a starting Session"@,
            ),
        )
    } else {
        Ok(set_live(m, actor.session, |s: SessionRow| ready(m, s, now)))
    }
}

/// Versioned native startup evidence retained with one Harness Session.
#[derive(Debug)]
pub struct HarnessCompatibilityEvidenceV1 {
    /// Must equal one.
    pub schema_version: u32,
    /// Native Harness whose handshake was observed.
    pub kind: HarnessKind,
    /// Adapter operations supported after startup.
    pub capabilities: AdapterCapabilities,
    /// Ordered native checks that succeeded before readiness.
    pub successful_checks: Vec<String>,
}

/// What a Worker Host found out about its native Session, by the numbers of the texts.
#[derive(Debug, Clone, Copy, PartialEq, Eq, Structural)]
pub struct NativeFindings {
    /// The executable and the version that were checked, and the stored form of the evidence.
    pub executable: TextKey,
    pub version: TextKey,
    pub evidence: TextKey,
    pub native_session: Option<TextKey>,
    pub native_thread: Option<TextKey>,
    pub model: Option<TextKey>,
    pub safe_compaction: bool,
}

/// Why compatibility evidence is refused; `size` is the length of its stored form.
pub open spec fn compatibility_refusal(
    m: Model,
    actor: AuthenticatedActor,
    executable: Seq<char>,
    version: Seq<char>,
    evidence: HarnessCompatibilityEvidenceV1,
    size: usize,
) -> Option<Refusal> {
    if actor.tier != HarnessTier::Worker {
        Some(
            refusal(
                ErrorCategory::Forbidden,
                "only a Worker Host may record compatibility evidence"@,
            ),
        )
    } else if !has_prefix(executable, "/"@) || blank(version) || byte_count(version) > 4096 {
        Some(
            refusal(
                ErrorCategory::InvalidInput,
                "compatibility evidence requires an absolute executable and bounded version"@,
            ),
        )
    } else if evidence.schema_version != SCHEMA_VERSION || evidence.successful_checks@.len() == 0 {
        Some(
            refusal(
                ErrorCategory::InvalidInput,
                "compatibility evidence requires schema version 1 and successful checks"@,
            ),
        )
    } else if size > 65_536 {
        Some(refusal(ErrorCategory::InvalidInput, "compatibility evidence exceeds 64 KiB"@))
    } else if !starting(m, actor.session) {
        Some(
            refusal(
                ErrorCategory::InvalidState,
                "compatibility evidence requires a starting Worker Session"@,
            ),
        )
    } else {
        None
    }
}

pub open spec fn compatible(s: SessionRow, found: NativeFindings, now: u64) -> SessionRow {
    SessionRow {
        native_session: found.native_session,
        native_thread: found.native_thread,
        model: found.model,
        executable: Some(found.executable),
        version: Some(found.version),
        compatibility: Some(found.evidence),
        safe_compaction: found.safe_compaction,
        health: NativeSessionHealth::Healthy,
        tool_policy: s.profile,
        last_seen: now,
        ..s
    }
}

/// Compatibility evidence of a starting Worker Session.
pub open spec fn host_compatibility(
    m: Model,
    actor: AuthenticatedActor,
    executable: Seq<char>,
    version: Seq<char>,
    found: NativeFindings,
    evidence: HarnessCompatibilityEvidenceV1,
    size: usize,
    now: u64,
) -> Result<Model, Refusal> {
    match compatibility_refusal(m, actor, executable, version, evidence, size) {
        Some(e) => Err(e),
        None => Ok(set_live(m, actor.session, |s: SessionRow| compatible(s, found, now))),
    }
}

/// What an Adapter reported of a live Session; `percent_in_range` says whether the share of the
/// context in use, where it is reported, lies between zero and one hundred.
#[derive(Debug, Clone, Copy, PartialEq, Eq, Structural)]
pub struct ReportedState {
    pub snapshot: AdapterRow,
    pub percent_in_range: bool,
}

pub open spec fn storable_count(n: Option<u64>) -> bool {
    match n {
        Some(n) => n <= i64::MAX,
        None => true,
    }
}

pub open spec fn reported(s: SessionRow, state: ReportedState, now: u64) -> SessionRow {
    SessionRow {
        health: state.snapshot.health,
        compactions: state.snapshot.compactions,
        context_tokens: state.snapshot.context_tokens,
        context_window: state.snapshot.context_window,
        context_percent: state.snapshot.context_percent,
        snapshot: Some(state.snapshot),
        last_seen: now,
        ..s
    }
}

/// A snapshot of a live Session.
pub open spec fn adapter_snapshot(
    m: Model,
    actor: AuthenticatedActor,
    state: ReportedState,
    now: u64,
) -> Result<Model, Refusal> {
    if !state.percent_in_range {
        Err(
            refusal(
                ErrorCategory::InvalidInput,
                "context_percent must be between zero and one hundred"@,
            ),
        )
    } else if !storable_count(state.snapshot.context_tokens) || !storable_count(
        state.snapshot.context_window,
    ) {
        Err(revision_overflow())
    } else if !live(m, actor.session) {
        Err(refusal(ErrorCategory::InvalidState, "Adapter snapshot requires a live Session"@))
    } else {
        Ok(set_live(m, actor.session, |s: SessionRow| reported(s, state, now)))
    }
}

fn is_storable_count(n: Option<u64>) -> (r: bool)
    ensures
        r == storable_count(n),
{
    match n {
        Some(n) => n <= 0x7fff_ffff_ffff_ffff,
        None => true,
    }
}

impl Ledger {
    fn starting_position(&self, id: HarnessSessionId) -> (r: Option<usize>)
        ensures
            match r {
                Some(i) => starting(self@, id) && first_where(self@.sessions, is_live_session(id))
                    == Some(i as int) && i < self.sessions.len(),
                None => !starting(self@, id),
            },
    {
        match self.live_session_position(id) {
            Some(i) => if self.sessions[i].presence == Presence::Starting {
                Some(i)
            } else {
                None
            },
            None => None,
        }
    }

    /// Records that a Worker Host is ready.
    pub fn record_host_ready(&mut self, actor: AuthenticatedActor, now: u64) -> (r: Result<
        (),
        CoordinatorError,
    >)
        ensures
            settles(r, old(self)@, final(self)@, plain(host_ready(old(self)@, actor, now))),
    {
        if actor.tier != HarnessTier::Worker {
            return Err(
                refuse(ErrorCategory::Forbidden, "only a Worker Host may report readiness"),
            );
        }
        let i = match self.starting_position(actor.session) {
            None => {
                return Err(
                    refuse(
                        ErrorCategory::InvalidState,
                        "Worker Host readiness requires a starting Session",
                    ),
                );
            },
            Some(i) => i,
        };
        let s = self.sessions[i];
        let registered = match self.harness(s.harness) {
            Some(h) => h.model,
            None => None,
        };
        let health = if s.health == NativeSessionHealth::Ambiguous {
            NativeSessionHealth::Healthy
        } else {
            s.health
        };
        let tool_policy = match s.tool_policy {
            Some(t) => Some(t),
            None => s.profile,
        };
        let model = match s.model {
            Some(x) => Some(x),
            None => registered,
        };
        self.sessions.set(
            i,
            SessionRow {
                presence: Presence::Online,
                activity: Activity::Idle,
                health,
                tool_policy,
                model,
                last_seen: now,
                ..s
            },
        );
        Ok(())
    }

    /// Records what a Worker Host found out about its native Session.
    pub fn record_host_compatibility(
        &mut self,
        actor: AuthenticatedActor,
        executable: &str,
        version: &str,
        found: NativeFindings,
        evidence: &HarnessCompatibilityEvidenceV1,
        size: usize,
        now: u64,
    ) -> (r: Result<(), CoordinatorError>)
        ensures
            settles(
                r,
                old(self)@,
                final(self)@,
                plain(
                    host_compatibility(
                        old(self)@,
                        actor,
                        executable@,
                        version@,
                        found,
                        *evidence,
                        size,
                        now,
                    ),
                ),
            ),
    {
        if actor.tier != HarnessTier::Worker {
            return Err(
                refuse(
                    ErrorCategory::Forbidden,
                    "only a Worker Host may record compatibility evidence",
                ),
            );
        }
        if !starts_with(executable, "/") || is_blank(version) || byte_len(version) > 4096 {
            return Err(
                refuse(
                    ErrorCategory::InvalidInput,
                    "compatibility evidence requires an absolute executable and bounded version",
                ),
            );
        }
        if evidence.schema_version != SCHEMA_VERSION || evidence.successful_checks.len() == 0 {
            return Err(
                refuse(
                    ErrorCategory::InvalidInput,
                    "compatibility evidence requires schema version 1 and successful checks",
                ),
            );
        }
        if size > 65_536 {
            return Err(
                refuse(ErrorCategory::InvalidInput, "compatibility evidence exceeds 64 KiB"),
            );
        }
        let i = match self.starting_position(actor.session) {
            None => {
                return Err(
                    refuse(
                        ErrorCategory::InvalidState,
                        "compatibility evidence requires a starting Worker Session",
                    ),
                );
            },
            Some(i) => i,
        };
        let s = self.sessions[i];
        self.sessions.set(
            i,
            SessionRow {
                native_session: found.native_session,
                native_thread: found.native_thread,
                model: found.model,
                executable: Some(found.executable),
                version: Some(found.version),
                compatibility: Some(found.evidence),
                safe_compaction: found.safe_compaction,
                health: NativeSessionHealth::Healthy,
                tool_policy: s.profile,
                last_seen: now,
                ..s
            },
        );
        Ok(())
    }

    /// Records what a provider reported of a live Session.
    pub fn record_adapter_snapshot(
        &mut self,
        actor: AuthenticatedActor,
        state: ReportedState,
        now: u64,
    ) -> (r: Result<(), CoordinatorError>)
        ensures
            settles(
                r,
                old(self)@,
                final(self)@,
                plain(adapter_snapshot(old(self)@, actor, state, now)),
            ),
    {
        if !state.percent_in_range {
            return Err(
                refuse(
                    ErrorCategory::InvalidInput,
                    "context_percent must be between zero and one hundred",
                ),
            );
        }
        if !is_storable_count(state.snapshot.context_tokens) || !is_storable_count(
            state.snapshot.context_window,
        ) {
            return Err(
                refuse(
                    ErrorCategory::StorageFailure,
                    "out of range integral type conversion attempted",
                ),
            );
        }
        let i = match self.live_session_position(actor.session) {
            None => {
                return Err(
                    refuse(ErrorCategory::InvalidState, "Adapter snapshot requires a live Session"),
                );
            },
            Some(i) => i,
        };
        let s = self.sessions[i];
        self.sessions.set(
            i,
            SessionRow {
                health: state.snapshot.health,
                compactions: state.snapshot.compactions,
                context_tokens: state.snapshot.context_tokens,
                context_window: state.snapshot.context_window,
                context_percent: state.snapshot.context_percent,
                snapshot: Some(state.snapshot),
                last_seen: now,
                ..s
            },
        );
        Ok(())
    }
}

// ---------------------------------------------------------------------------------------------
// The managed Supervisor
// ---------------------------------------------------------------------------------------------

pub open spec fn supervisor_online(
    s: SessionRow,
    native_session: Option<TextKey>,
    native_thread: Option<TextKey>,
    now: u64,
) -> SessionRow {
    SessionRow {
        native_session,
        native_thread,
        presence: Presence::Online,
        activity: Activity::Idle,
        health: NativeSessionHealth::Healthy,
        last_seen: now,
        ..s
    }
}

/// The managed Supervisor connected: deliveries that were under way before are in doubt.
pub open spec fn supervisor_binding(
    m: Model,
    actor: AuthenticatedActor,
    native_session: Option<TextKey>,
    native_thread: Option<TextKey>,
    now: u64,
) -> Result<Model, Refusal> {
    if actor.tier != HarnessTier::Supervisor {
        Err(
            refusal(
                ErrorCategory::Forbidden,
                "only the managed Supervisor Host may bind a native Supervisor Session"@,
            ),
        )
    } else if !live(m, actor.session) {
        Err(
            refusal(
                ErrorCategory::InvalidState,
                "Supervisor binding requires a live Coordinator Session"@,
            ),
        )
    } else {
        Ok(
            set_live(
                doubt_unsettled(m, Wording::SupervisorReconnected),
                actor.session,
                |s: SessionRow| supervisor_online(s, native_session, native_thread, now),
            ),
        )
    }
}

pub open spec fn supervisor_offline(s: SessionRow, now: u64) -> SessionRow {
    SessionRow {
        presence: Presence::Disconnected,
        activity: Activity::Idle,
        health: NativeSessionHealth::Ambiguous,
        snapshot: None,
        last_seen: now,
        ..s
    }
}

/// A diagnostic of at most 16 KiB, if there is one.
pub open spec fn diagnostic_fits(diagnostic: Option<Seq<char>>) -> bool {
    match diagnostic {
        Some(text) => byte_count(text) <= 16_384,
        None => true,
    }
}

/// A reason, or the words to use where none was given.
pub open spec fn or_else(why: Option<Wording>, own: Wording) -> Wording {
    match why {
        Some(why) => why,
        None => own,
    }
}

fn choose_words(why: Option<Wording>, own: Wording) -> (r: Wording)
    ensures
        r == or_else(why, own),
{
    match why {
        Some(why) => why,
        None => own,
    }
}

/// The managed Supervisor disconnected: deliveries that were under way are in doubt. `why` stands
/// for the diagnostic, if there is one.
pub open spec fn supervisor_disconnected(
    m: Model,
    actor: AuthenticatedActor,
    diagnostic: Option<Seq<char>>,
    why: Option<Wording>,
    now: u64,
) -> Result<Model, Refusal> {
    if actor.tier != HarnessTier::Supervisor {
        Err(
            refusal(
                ErrorCategory::Forbidden,
                "only the managed Supervisor Host may report Supervisor disconnection"@,
            ),
        )
    } else if !diagnostic_fits(diagnostic) {
        Err(
            refusal(
                ErrorCategory::InvalidInput,
                "Supervisor disconnection diagnostic exceeds 16 KiB"@,
            ),
        )
    } else if !live(m, actor.session) {
        Err(
            refusal(
                ErrorCategory::InvalidState,
                "Supervisor disconnection requires a live Coordinator Session"@,
            ),
        )
    } else {
        Ok(
            set_live(
                doubt_unsettled(
                    drop_connection(
                        m,
                        actor.connection,
                        or_else(why, Wording::SupervisorDisconnected),
                    ),
                    or_else(why, Wording::SupervisorDisconnectedDispatching),
                ),
                actor.session,
                |s: SessionRow| supervisor_offline(s, now),
            ),
        )
    }
}

/// View of an optional text.
pub open spec fn optional_view(text: Option<&str>) -> Option<Seq<char>> {
    match text {
        Some(t) => Some(t@),
        None => None,
    }
}

/// Whether a diagnostic stays within 16 KiB.
pub fn fits_diagnostic(diagnostic: Option<&str>) -> (r: bool)
    ensures
        r == diagnostic_fits(optional_view(diagnostic)),
{
    match diagnostic {
        Some(text) => byte_len(text) <= 16_384,
        None => true,
    }
}

proof fn doubt_keeps_sessions(m: Model, n: nat, why: Wording)
    ensures
        crate::ledger::events::note_timeouts_upto(m, n, why).sessions == m.sessions,
    decreases n,
{
    if n > 0 {
        doubt_keeps_sessions(m, (n - 1) as nat, why);
    }
}

impl Ledger {
    /// Records that the managed Supervisor connected.
    pub fn record_supervisor_binding(
        &mut self,
        actor: AuthenticatedActor,
        native_session: Option<TextKey>,
        native_thread: Option<TextKey>,
        now: u64,
    ) -> (r: Result<(), CoordinatorError>)
        ensures
            settles(
                r,
                old(self)@,
                final(self)@,
                plain(
                    supervisor_binding(old(self)@, actor, native_session, native_thread, now),
                ),
            ),
    {
        if actor.tier != HarnessTier::Supervisor {
            return Err(
                refuse(
                    ErrorCategory::Forbidden,
                    "only the managed Supervisor Host may bind a native Supervisor Session",
                ),
            );
        }
        let i = match self.live_session_position(actor.session) {
            None => {
                return Err(
                    refuse(
                        ErrorCategory::InvalidState,
                        "Supervisor binding requires a live Coordinator Session",
                    ),
                );
            },
            Some(i) => i,
        };
        let why = Wording::SupervisorReconnected;
        self.mark_unsettled_supervisor_delivery_unknown(why);
        proof {
            doubt_keeps_sessions(old(self)@, old(self)@.event_attempts.len(), why);
        }
        assert(self@.sessions == old(self)@.sessions);
        let s = self.sessions[i];
        self.sessions.set(
            i,
            SessionRow {
                native_session,
                native_thread,
                presence: Presence::Online,
                activity: Activity::Idle,
                health: NativeSessionHealth::Healthy,
                last_seen: now,
                ..s
            },
        );
        Ok(())
    }

    /// Records that the managed Supervisor disconnected.
    pub fn record_supervisor_disconnected(
        &mut self,
        actor: AuthenticatedActor,
        diagnostic: Option<&str>,
        why: Option<Wording>,
        now: u64,
    ) -> (r: Result<(), CoordinatorError>)
        ensures
            settles(
                r,
                old(self)@,
                final(self)@,
                plain(
                    supervisor_disconnected(
                        old(self)@,
                        actor,
                        optional_view(diagnostic),
                        why,
                        now,
                    ),
                ),
            ),
    {
        if actor.tier != HarnessTier::Supervisor {
            return Err(
                refuse(
                    ErrorCategory::Forbidden,
                    "only the managed Supervisor Host may report Supervisor disconnection",
                ),
            );
        }
        if !fits_diagnostic(diagnostic) {
            return Err(
                refuse(
                    ErrorCategory::InvalidInput,
                    "Supervisor disconnection diagnostic exceeds 16 KiB",
                ),
            );
        }
        let i = match self.live_session_position(actor.session) {
            None => {
                return Err(
                    refuse(
                        ErrorCategory::InvalidState,
                        "Supervisor disconnection requires a live Coordinator Session",
                    ),
                );
            },
            Some(i) => i,
        };
        self.drop_connection(
            actor.connection,
            choose_words(why, Wording::SupervisorDisconnected),
        );
        let ghost dropped = self@;
        let doubt = choose_words(why, Wording::SupervisorDisconnectedDispatching);
        self.mark_unsettled_supervisor_delivery_unknown(doubt);
        proof {
            doubt_keeps_sessions(dropped, dropped.event_attempts.len(), doubt);
        }
        assert(self@.sessions == old(self)@.sessions);
        let s = self.sessions[i];
        self.sessions.set(
            i,
            SessionRow {
                presence: Presence::Disconnected,
                activity: Activity::Idle,
                health: NativeSessionHealth::Ambiguous,
                snapshot: None,
                last_seen: now,
                ..s
            },
        );
        Ok(())
    }
}

} // verus!

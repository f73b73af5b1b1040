//! Delivery of Supervisor events, one at a time and in order, and watches over Task graphs.
use vstd::prelude::*;

use crate::contract::SupervisorEventDeliveryState;
use crate::error::{refusal, refuse, CoordinatorError, ErrorCategory, Refusal};
use crate::identity::{DeliveryAttemptId, HarnessSessionId, SupervisorEventId};
use crate::ledger::settlement::{refuse_missing_row, row_missing};
use crate::ledger::steps::plain;
use crate::ledger::{is_event, is_live_session, is_session, settles, Ledger, Model};
use crate::rows::{
    AttemptState, AuthenticatedActor, EventAttemptRow, EventObservationKind, EventObservationRow,
    EventRow, SessionRow, TextKey, Wording,
};
use crate::select::{
    first_found, first_missing, first_where, last_found, last_missing, last_where, some_where,
    update_where,
};
use crate::text::{blank, byte_count, byte_len, is_blank};

verus! {

// ---------------------------------------------------------------------------------------------
// Claiming
// ---------------------------------------------------------------------------------------------

/// An event whose delivery is under way or in doubt.
pub open spec fn in_flight(e: EventRow) -> bool {
    e.state == SupervisorEventDeliveryState::Dispatching || e.state
        == SupervisorEventDeliveryState::Accepted || e.state
        == SupervisorEventDeliveryState::Unknown
}

pub open spec fn is_in_flight() -> spec_fn(EventRow) -> bool {
    |e: EventRow| in_flight(e)
}

pub open spec fn is_pending() -> spec_fn(EventRow) -> bool {
    |e: EventRow| e.state == SupervisorEventDeliveryState::Pending
}

pub open spec fn in_state(e: EventRow, state: SupervisorEventDeliveryState) -> EventRow {
    EventRow { state, ..e }
}

/// The oldest pending event goes out, with an attempt at the claiming Session, unless another event
/// is in flight.
pub open spec fn claim_event(m: Model, actor: AuthenticatedActor) -> (Model, Option<EventRow>) {
    if some_where(m.events, is_in_flight()) {
        (m, None)
    } else {
        match first_where(m.events, is_pending()) {
            None => (m, None),
            Some(i) => {
                let claimed = in_state(m.events[i], SupervisorEventDeliveryState::Dispatching);
                (
                    Model {
                        events: m.events.update(i, claimed),
                        event_attempts: m.event_attempts.push(
                            EventAttemptRow {
                                id: DeliveryAttemptId(m.event_attempts.len() as u128),
                                event: claimed.id,
                                session: actor.session,
                                connection: actor.connection,
                                state: AttemptState::Dispatching,
                                wrote: false,
                                correlation: None,
                                turn: None,
                                evidence: None,
                                doubt: None,
                            },
                        ),
                        ..m
                    },
                    Some(claimed),
                )
            },
        }
    }
}

impl Ledger {
    fn is_event_in_flight(&self) -> (r: bool)
        ensures
            r == some_where(self@.events, is_in_flight()),
    {
        let mut i: usize = 0;
        while i < self.events.len()
            invariant
                i <= self.events.len(),
                forall|j: int| 0 <= j < i ==> !is_in_flight()(#[trigger] self.events@[j]),
            decreases self.events.len() - i,
        {
            match self.events[i].state {
                SupervisorEventDeliveryState::Dispatching
                | SupervisorEventDeliveryState::Accepted
                | SupervisorEventDeliveryState::Unknown => {
                    assert(is_in_flight()(self@.events[i as int]));
                    return true;
                },
                _ => {},
            }
            i += 1;
        }
        false
    }

    fn first_pending(&self) -> (r: Option<usize>)
        ensures
            match r {
                Some(i) => first_where(self@.events, is_pending()) == Some(i as int) && i
                    < self.events.len(),
                None => first_where(self@.events, is_pending()) is None,
            },
    {
        let mut i: usize = 0;
        while i < self.events.len()
            invariant
                i <= self.events.len(),
                forall|j: int| 0 <= j < i ==> !is_pending()(#[trigger] self.events@[j]),
            decreases self.events.len() - i,
        {
            if self.events[i].state == SupervisorEventDeliveryState::Pending {
                proof {
                    first_found(self@.events, is_pending(), i as int);
                }
                return Some(i);
            }
            i += 1;
        }
        proof {
            first_missing(self@.events, is_pending());
        }
        None
    }

    /// Claims the oldest pending event, unless another one is in flight.
    pub fn claim_next_supervisor_event(&mut self, actor: AuthenticatedActor) -> (r: Option<EventRow>)
        ensures
            (final(self)@, r) == claim_event(old(self)@, actor),
    {
        if self.is_event_in_flight() {
            return None;
        }
        match self.first_pending() {
            None => None,
            Some(i) => {
                let e = self.events[i];
                let claimed = EventRow { state: SupervisorEventDeliveryState::Dispatching, ..e };
                self.events.set(i, claimed);
                let id = DeliveryAttemptId(self.event_attempts.len() as u128);
                self.event_attempts.push(
                    EventAttemptRow {
                        id,
                        event: claimed.id,
                        session: actor.session,
                        connection: actor.connection,
                        state: AttemptState::Dispatching,
                        wrote: false,
                        correlation: None,
                        turn: None,
                        evidence: None,
                        doubt: None,
                    },
                );
                Some(claimed)
            },
        }
    }
}

// ---------------------------------------------------------------------------------------------
// Steps on one event
// ---------------------------------------------------------------------------------------------

/// One event moved to another state.
pub open spec fn move_event(
    m: Model,
    id: SupervisorEventId,
    state: SupervisorEventDeliveryState,
) -> Model {
    match first_where(m.events, is_event(id)) {
        None => m,
        Some(i) => Model { events: m.events.update(i, in_state(m.events[i], state)), ..m },
    }
}

/// The state of an event.
pub open spec fn event_state(m: Model, id: SupervisorEventId) -> Option<
    SupervisorEventDeliveryState,
> {
    match first_where(m.events, is_event(id)) {
        None => None,
        Some(i) => Some(m.events[i].state),
    }
}

/// What native acceptance says, by the numbers of its texts.
#[derive(Debug, Clone, Copy, PartialEq, Eq, Structural)]
pub struct Acceptance {
    pub correlation: TextKey,
    pub turn: Option<TextKey>,
    pub evidence: TextKey,
}

pub open spec fn accepted_attempt(a: EventAttemptRow, said: Acceptance) -> EventAttemptRow {
    EventAttemptRow {
        state: AttemptState::Accepted,
        correlation: Some(said.correlation),
        turn: said.turn,
        evidence: Some(said.evidence),
        ..a
    }
}

pub open spec fn released_attempt(a: EventAttemptRow, diagnostic: TextKey) -> EventAttemptRow {
    EventAttemptRow {
        state: AttemptState::Cancelled,
        turn: None,
        evidence: Some(diagnostic),
        ..a
    }
}

/// An attempt of an event that is being dispatched to a Session.
pub open spec fn is_dispatching_to(event: SupervisorEventId, session: HarnessSessionId) -> spec_fn(
    EventAttemptRow,
) -> bool {
    |a: EventAttemptRow|
        a.event == event && a.session == session && a.state == AttemptState::Dispatching
}

/// An attempt of an event of which nothing was written yet.
pub open spec fn is_unwritten_of(event: SupervisorEventId) -> spec_fn(EventAttemptRow) -> bool {
    |a: EventAttemptRow| a.event == event && a.state == AttemptState::Dispatching && !a.wrote
}

impl Ledger {
    /// Position of an event.
    pub fn event_position(&self, id: SupervisorEventId) -> (r: Option<usize>)
        ensures
            match r {
                Some(i) => first_where(self@.events, is_event(id)) == Some(i as int) && i
                    < self.events.len(),
                None => first_where(self@.events, is_event(id)) is None,
            },
    {
        let mut i: usize = 0;
        while i < self.events.len()
            invariant
                i <= self.events.len(),
                forall|j: int| 0 <= j < i ==> !is_event(id)(#[trigger] self.events@[j]),
            decreases self.events.len() - i,
        {
            if self.events[i].id == id {
                proof {
                    first_found(self@.events, is_event(id), i as int);
                }
                return Some(i);
            }
            i += 1;
        }
        proof {
            first_missing(self@.events, is_event(id));
        }
        None
    }

    /// The state of an event.
    pub fn event_state(&self, id: SupervisorEventId) -> (r: Option<SupervisorEventDeliveryState>)
        ensures
            r == event_state(self@, id),
    {
        match self.event_position(id) {
            Some(i) => Some(self.events[i].state),
            None => None,
        }
    }

    fn move_event(&mut self, id: SupervisorEventId, state: SupervisorEventDeliveryState)
        ensures
            final(self)@ == move_event(old(self)@, id, state),
    {
        if let Some(i) = self.event_position(id) {
            let e = self.events[i];
            self.events.set(i, EventRow { state, ..e });
        }
    }

    fn accept_attempts(
        &mut self,
        event: SupervisorEventId,
        session: HarnessSessionId,
        said: Acceptance,
    )
        ensures
            final(self)@ == (Model {
                event_attempts: update_where(
                    old(self)@.event_attempts,
                    is_dispatching_to(event, session),
                    |a: EventAttemptRow| accepted_attempt(a, said),
                ),
                ..old(self)@
            }),
    {
        let n = self.event_attempts.len();
        let mut i: usize = 0;
        while i < n
            invariant
                i <= n,
                n == self.event_attempts.len(),
                n == old(self).event_attempts.len(),
                self@ == (Model { event_attempts: self.event_attempts@, ..old(self)@ }),
                forall|j: int|
                    0 <= j < i ==> #[trigger] self.event_attempts@[j] == (if is_dispatching_to(
                        event,
                        session,
                    )(old(self).event_attempts@[j]) {
                        accepted_attempt(old(self).event_attempts@[j], said)
                    } else {
                        old(self).event_attempts@[j]
                    }),
                forall|j: int|
                    i <= j < n ==> #[trigger] self.event_attempts@[j] == old(
                        self,
                    ).event_attempts@[j],
            decreases n - i,
        {
            let a = self.event_attempts[i];
            if a.event == event && a.session == session && a.state == AttemptState::Dispatching {
                self.event_attempts.set(
                    i,
                    EventAttemptRow {
                        state: AttemptState::Accepted,
                        correlation: Some(said.correlation),
                        turn: said.turn,
                        evidence: Some(said.evidence),
                        ..a
                    },
                );
            }
            i += 1;
        }
        assert(self.event_attempts@ =~= update_where(
            old(self).event_attempts@,
            is_dispatching_to(event, session),
            |a: EventAttemptRow| accepted_attempt(a, said),
        ));
    }

    fn cancel_attempts(&mut self, event: SupervisorEventId, diagnostic: TextKey)
        ensures
            final(self)@ == (Model {
                event_attempts: update_where(
                    old(self)@.event_attempts,
                    is_unwritten_of(event),
                    |a: EventAttemptRow| released_attempt(a, diagnostic),
                ),
                ..old(self)@
            }),
    {
        let n = self.event_attempts.len();
        let mut i: usize = 0;
        while i < n
            invariant
                i <= n,
                n == self.event_attempts.len(),
                n == old(self).event_attempts.len(),
                self@ == (Model { event_attempts: self.event_attempts@, ..old(self)@ }),
                forall|j: int|
                    0 <= j < i ==> #[trigger] self.event_attempts@[j] == (if is_unwritten_of(event)(
                        old(self).event_attempts@[j],
                    ) {
                        released_attempt(old(self).event_attempts@[j], diagnostic)
                    } else {
                        old(self).event_attempts@[j]
                    }),
                forall|j: int|
                    i <= j < n ==> #[trigger] self.event_attempts@[j] == old(
                        self,
                    ).event_attempts@[j],
            decreases n - i,
        {
            let a = self.event_attempts[i];
            if a.event == event && a.state == AttemptState::Dispatching && !a.wrote {
                self.event_attempts.set(
                    i,
                    EventAttemptRow {
                        state: AttemptState::Cancelled,
                        turn: None,
                        evidence: Some(diagnostic),
                        ..a
                    },
                );
            }
            i += 1;
        }
        assert(self.event_attempts@ =~= update_where(
            old(self).event_attempts@,
            is_unwritten_of(event),
            |a: EventAttemptRow| released_attempt(a, diagnostic),
        ));
    }
}

// ---------------------------------------------------------------------------------------------
// Acceptance and release
// ---------------------------------------------------------------------------------------------

/// Native acceptance of an event that is being dispatched; `said` numbers the texts.
pub open spec fn accept_event(
    m: Model,
    actor: AuthenticatedActor,
    id: SupervisorEventId,
    correlation: Seq<char>,
    evidence: Seq<char>,
    said: Acceptance,
) -> Result<Model, Refusal> {
    if blank(correlation) || blank(evidence) {
        Err(
            refusal(
                ErrorCategory::InvalidInput,
                "native acceptance requires correlation and evidence"@,
            ),
        )
    } else if event_state(m, id) != Some(SupervisorEventDeliveryState::Dispatching) {
        Err(refusal(ErrorCategory::InvalidState, "Supervisor event must be dispatching"@))
    } else {
        let moved = move_event(m, id, SupervisorEventDeliveryState::Accepted);
        Ok(
            Model {
                event_attempts: update_where(
                    m.event_attempts,
                    is_dispatching_to(id, actor.session),
                    |a: EventAttemptRow| accepted_attempt(a, said),
                ),
                ..moved
            },
        )
    }
}

/// An event that was certainly not delivered put back in line; `key` is the number of the
/// diagnostic.
pub open spec fn release_event(
    m: Model,
    id: SupervisorEventId,
    diagnostic: Seq<char>,
    key: TextKey,
) -> Result<Model, Refusal> {
    if blank(diagnostic) {
        Err(refusal(ErrorCategory::InvalidInput, "retry-safe release requires a diagnostic"@))
    } else if event_state(m, id) != Some(SupervisorEventDeliveryState::Dispatching) {
        Err(refusal(ErrorCategory::InvalidState, "only a dispatching event may be released"@))
    } else {
        let moved = move_event(m, id, SupervisorEventDeliveryState::Pending);
        Ok(
            Model {
                event_attempts: update_where(
                    m.event_attempts,
                    is_unwritten_of(id),
                    |a: EventAttemptRow| released_attempt(a, key),
                ),
                ..moved
            },
        )
    }
}

impl Ledger {
    fn is_dispatching(&self, id: SupervisorEventId) -> (r: bool)
        ensures
            r == (event_state(self@, id) == Some(SupervisorEventDeliveryState::Dispatching)),
    {
        match self.event_state(id) {
            Some(state) => state == SupervisorEventDeliveryState::Dispatching,
            None => false,
        }
    }

    /// Records native acceptance of an event.
    pub fn accept_supervisor_event(
        &mut self,
        actor: AuthenticatedActor,
        id: SupervisorEventId,
        correlation: &str,
        evidence: &str,
        said: Acceptance,
    ) -> (r: Result<(), CoordinatorError>)
        ensures
            settles(
                r,
                old(self)@,
                final(self)@,
                plain(accept_event(old(self)@, actor, id, correlation@, evidence@, said)),
            ),
    {
        if is_blank(correlation) || is_blank(evidence) {
            return Err(
                refuse(
                    ErrorCategory::InvalidInput,
                    "native acceptance requires correlation and evidence",
                ),
            );
        }
        if !self.is_dispatching(id) {
            return Err(
                refuse(ErrorCategory::InvalidState, "Supervisor event must be dispatching"),
            );
        }
        self.move_event(id, SupervisorEventDeliveryState::Accepted);
        self.accept_attempts(id, actor.session, said);
        Ok(())
    }

    /// Puts an event that was certainly not delivered back in line.
    pub fn release_supervisor_event(
        &mut self,
        id: SupervisorEventId,
        diagnostic: &str,
        key: TextKey,
    ) -> (r: Result<(), CoordinatorError>)
        ensures
            settles(
                r,
                old(self)@,
                final(self)@,
                plain(release_event(old(self)@, id, diagnostic@, key)),
            ),
    {
        if is_blank(diagnostic) {
            return Err(
                refuse(ErrorCategory::InvalidInput, "retry-safe release requires a diagnostic"),
            );
        }
        if !self.is_dispatching(id) {
            return Err(
                refuse(ErrorCategory::InvalidState, "only a dispatching event may be released"),
            );
        }
        self.move_event(id, SupervisorEventDeliveryState::Pending);
        self.cancel_attempts(id, key);
        Ok(())
    }
}

// ---------------------------------------------------------------------------------------------
// Presentation
// ---------------------------------------------------------------------------------------------

/// How far an accepted injection got in the native session.
#[derive(Debug, Clone, Copy, PartialEq, Eq, Structural)]
pub enum SupervisorPresentationPhase {
    /// The injected text was shown.
    Presented,
    /// A native turn started on it.
    TurnStarted,
    /// The native turn ended.
    TurnCompleted,
}

pub open spec fn phase_kind(phase: SupervisorPresentationPhase) -> EventObservationKind {
    match phase {
        SupervisorPresentationPhase::Presented => EventObservationKind::Presented,
        SupervisorPresentationPhase::TurnStarted => EventObservationKind::TurnStarted,
        SupervisorPresentationPhase::TurnCompleted => EventObservationKind::TurnCompleted,
    }
}

/// An accepted attempt of an event at a Session.
pub open spec fn is_accepted_at(event: SupervisorEventId, session: HarnessSessionId) -> spec_fn(
    EventAttemptRow,
) -> bool {
    |a: EventAttemptRow|
        a.event == event && a.session == session && a.state == AttemptState::Accepted
}

/// An observation of the same: the evidence and the native identities do not count.
pub open spec fn is_same_observation(row: EventObservationRow) -> spec_fn(
    EventObservationRow,
) -> bool {
    |o: EventObservationRow|
        o.event == row.event && o.attempt == row.attempt && o.kind == row.kind && o.turn == row.turn
}

/// An observation, unless it was made before.
pub open spec fn note_observation(m: Model, row: EventObservationRow) -> Model {
    if some_where(m.event_observations, is_same_observation(row)) {
        m
    } else {
        Model { event_observations: m.event_observations.push(row), ..m }
    }
}

/// Evidence of how far an accepted injection got; `key` is the number of the evidence.
pub open spec fn record_presentation(
    m: Model,
    actor: AuthenticatedActor,
    id: SupervisorEventId,
    phase: SupervisorPresentationPhase,
    turn: Option<TextKey>,
    evidence: Seq<char>,
    key: TextKey,
) -> Result<Model, Refusal> {
    if blank(evidence) || byte_count(evidence) > 16_384 {
        Err(
            refusal(
                ErrorCategory::InvalidInput,
                "Supervisor presentation evidence must contain 1 to 16,384 bytes"@,
            ),
        )
    } else {
        match last_where(m.event_attempts, is_accepted_at(id, actor.session)) {
            None => Err(
                refusal(
                    ErrorCategory::InvalidState,
                    "presentation evidence requires an accepted event attempt"@,
                ),
            ),
            Some(k) => match first_where(m.sessions, is_live_session(actor.session)) {
                None => Err(row_missing()),
                Some(s) => Ok(
                    note_observation(
                        m,
                        EventObservationRow {
                            event: id,
                            attempt: m.event_attempts[k].id,
                            kind: phase_kind(phase),
                            turn,
                            native_session: m.sessions[s].native_session,
                            native_thread: m.sessions[s].native_thread,
                            evidence: Wording::Given { text: key },
                        },
                    ),
                ),
            },
        }
    }
}

impl Ledger {
    fn note_observation(&mut self, row: EventObservationRow)
        ensures
            final(self)@ == note_observation(old(self)@, row),
    {
        let mut i: usize = 0;
        while i < self.event_observations.len()
            invariant
                i <= self.event_observations.len(),
                self@ == old(self)@,
                forall|j: int|
                    0 <= j < i ==> !is_same_observation(row)(
                        #[trigger] self.event_observations@[j],
                    ),
            decreases self.event_observations.len() - i,
        {
            let o = self.event_observations[i];
            let same_turn = match (o.turn, row.turn) {
                (None, None) => true,
                (Some(a), Some(b)) => a == b,
                _ => false,
            };
            if o.event == row.event && o.attempt == row.attempt && o.kind == row.kind && same_turn {
                assert(is_same_observation(row)(self@.event_observations[i as int]));
                return ;
            }
            i += 1;
        }
        self.event_observations.push(row);
    }

    fn latest_accepted(&self, event: SupervisorEventId, session: HarnessSessionId) -> (r: Option<
        DeliveryAttemptId,
    >)
        ensures
            r == (match last_where(self@.event_attempts, is_accepted_at(event, session)) {
                Some(k) => Some(self@.event_attempts[k].id),
                None => None,
            }),
    {
        let mut i: usize = self.event_attempts.len();
        while i > 0
            invariant
                i <= self.event_attempts.len(),
                forall|j: int|
                    i <= j < self.event_attempts.len() ==> !is_accepted_at(event, session)(
                        #[trigger] self.event_attempts@[j],
                    ),
            decreases i,
        {
            i -= 1;
            let a = self.event_attempts[i];
            if a.event == event && a.session == session && a.state == AttemptState::Accepted {
                proof {
                    last_found(self@.event_attempts, is_accepted_at(event, session), i as int);
                }
                return Some(a.id);
            }
        }
        proof {
            last_missing(self@.event_attempts, is_accepted_at(event, session));
        }
        None
    }

    /// Records how far an accepted injection got.
    pub fn record_supervisor_event_presentation(
        &mut self,
        actor: AuthenticatedActor,
        id: SupervisorEventId,
        phase: SupervisorPresentationPhase,
        turn: Option<TextKey>,
        evidence: &str,
        key: TextKey,
    ) -> (r: Result<(), CoordinatorError>)
        ensures
            settles(
                r,
                old(self)@,
                final(self)@,
                plain(
                    record_presentation(old(self)@, actor, id, phase, turn, evidence@, key),
                ),
            ),
    {
        if is_blank(evidence) || byte_len(evidence) > 16_384 {
            return Err(
                refuse(
                    ErrorCategory::InvalidInput,
                    "Supervisor presentation evidence must contain 1 to 16,384 bytes",
                ),
            );
        }
        let attempt = match self.latest_accepted(id, actor.session) {
            None => {
                return Err(
                    refuse(
                        ErrorCategory::InvalidState,
                        "presentation evidence requires an accepted event attempt",
                    ),
                );
            },
            Some(attempt) => attempt,
        };
        let session = match self.live_session_position(actor.session) {
            None => {
                return Err(refuse_missing_row());
            },
            Some(s) => self.sessions[s],
        };
        let kind = match phase {
            SupervisorPresentationPhase::Presented => EventObservationKind::Presented,
            SupervisorPresentationPhase::TurnStarted => EventObservationKind::TurnStarted,
            SupervisorPresentationPhase::TurnCompleted => EventObservationKind::TurnCompleted,
        };
        self.note_observation(
            EventObservationRow {
                event: id,
                attempt,
                kind,
                turn,
                native_session: session.native_session,
                native_thread: session.native_thread,
                evidence: Wording::Given { text: key },
            },
        );
        Ok(())
    }
}

// ---------------------------------------------------------------------------------------------
// Doubt
// ---------------------------------------------------------------------------------------------

/// An attempt whose outcome is open.
pub open spec fn is_unsettled() -> spec_fn(EventAttemptRow) -> bool {
    |a: EventAttemptRow| a.state == AttemptState::Dispatching || a.state == AttemptState::Accepted
}

pub open spec fn is_unsettled_of(event: SupervisorEventId) -> spec_fn(EventAttemptRow) -> bool {
    |a: EventAttemptRow| a.event == event && is_unsettled()(a)
}

pub open spec fn doubt(a: EventAttemptRow, why: Wording) -> EventAttemptRow {
    EventAttemptRow { state: AttemptState::Unknown, wrote: true, doubt: Some(why), ..a }
}

pub open spec fn is_presented(attempt: DeliveryAttemptId) -> spec_fn(EventObservationRow) -> bool {
    |o: EventObservationRow|
        o.attempt == attempt && o.kind == EventObservationKind::Presented
}

/// An accepted injection that was never presented is noted as timed out, with the native identities
/// of its Session.
pub open spec fn note_timeout(m: Model, a: EventAttemptRow, why: Wording) -> Model {
    let s = m.sessions[first_where(m.sessions, is_session(a.session))->0];
    if some_where(m.event_observations, is_presented(a.id)) {
        m
    } else {
        note_observation(
            m,
            EventObservationRow {
                event: a.event,
                attempt: a.id,
                kind: EventObservationKind::PresentationTimeout,
                turn: None,
                native_session: s.native_session,
                native_thread: s.native_thread,
                evidence: why,
            },
        )
    }
}

/// Delivery of one event in doubt; `key` is the number of the diagnostic.
pub open spec fn mark_event_unknown(
    m: Model,
    id: SupervisorEventId,
    diagnostic: Seq<char>,
    key: TextKey,
) -> Result<Model, Refusal> {
    let why = Wording::Given { text: key };
    if blank(diagnostic) {
        Err(refusal(ErrorCategory::InvalidInput, "ambiguous injection requires a diagnostic"@))
    } else {
        match last_where(m.event_attempts, is_unsettled_of(id)) {
            None => Err(
                refusal(ErrorCategory::InvalidState, "event has no unsettled delivery attempt"@),
            ),
            Some(k) => {
                let a = m.event_attempts[k];
                let state = event_state(m, id);
                if state != Some(SupervisorEventDeliveryState::Dispatching) && state != Some(
                    SupervisorEventDeliveryState::Accepted,
                ) {
                    Err(
                        refusal(
                            ErrorCategory::InvalidState,
                            "only a dispatching or accepted Supervisor event may become Unknown"@,
                        ),
                    )
                } else if a.state == AttemptState::Accepted && first_where(
                    m.sessions,
                    is_session(a.session),
                ) is None {
                    Err(row_missing())
                } else {
                    let moved = move_event(m, id, SupervisorEventDeliveryState::Unknown);
                    let marked = Model {
                        event_attempts: m.event_attempts.update(k, doubt(a, why)),
                        ..moved
                    };
                    Ok(
                        if a.state == AttemptState::Accepted {
                            note_timeout(marked, a, why)
                        } else {
                            marked
                        },
                    )
                }
            },
        }
    }
}

/// The timeouts of the accepted attempts among the first `n`, at Sessions that are on record.
pub open spec fn note_timeouts_upto(m: Model, n: nat, why: Wording) -> Model
    decreases n,
{
    if n == 0 {
        m
    } else {
        let before = note_timeouts_upto(m, (n - 1) as nat, why);
        let a = m.event_attempts[n - 1];
        if a.state == AttemptState::Accepted && first_where(m.sessions, is_session(a.session)) is Some {
            note_timeout(before, a, why)
        } else {
            before
        }
    }
}

pub open spec fn is_unsettled_event() -> spec_fn(EventRow) -> bool {
    |e: EventRow|
        e.state == SupervisorEventDeliveryState::Dispatching || e.state
            == SupervisorEventDeliveryState::Accepted
}

/// Every delivery that is under way in doubt, for one reason.
pub open spec fn doubt_unsettled(m: Model, why: Wording) -> Model {
    let noted = note_timeouts_upto(m, m.event_attempts.len(), why);
    Model {
        event_attempts: update_where(
            m.event_attempts,
            is_unsettled(),
            |a: EventAttemptRow| doubt(a, why),
        ),
        events: update_where(
            m.events,
            is_unsettled_event(),
            |e: EventRow| in_state(e, SupervisorEventDeliveryState::Unknown),
        ),
        ..noted
    }
}

pub proof fn note_timeouts_frame(m: Model, n: nat, why: Wording)
    ensures
        note_timeouts_upto(m, n, why) == (Model {
            event_observations: note_timeouts_upto(m, n, why).event_observations,
            ..m
        }),
    decreases n,
{
    if n > 0 {
        note_timeouts_frame(m, (n - 1) as nat, why);
    }
}

impl Ledger {
    fn is_presented(&self, attempt: DeliveryAttemptId) -> (r: bool)
        ensures
            r == some_where(self@.event_observations, is_presented(attempt)),
    {
        let mut i: usize = 0;
        while i < self.event_observations.len()
            invariant
                i <= self.event_observations.len(),
                forall|j: int|
                    0 <= j < i ==> !is_presented(attempt)(#[trigger] self.event_observations@[j]),
            decreases self.event_observations.len() - i,
        {
            let o = self.event_observations[i];
            if o.attempt == attempt && o.kind == EventObservationKind::Presented {
                assert(is_presented(attempt)(self@.event_observations[i as int]));
                return true;
            }
            i += 1;
        }
        false
    }

    fn note_timeout(&mut self, a: EventAttemptRow, s: SessionRow, why: Wording)
        requires
            first_where(old(self)@.sessions, is_session(a.session)) is Some,
            s == old(self)@.sessions[first_where(
                old(self)@.sessions,
                is_session(a.session),
            )->0],
        ensures
            final(self)@ == note_timeout(old(self)@, a, why),
    {
        if !self.is_presented(a.id) {
            self.note_observation(
                EventObservationRow {
                    event: a.event,
                    attempt: a.id,
                    kind: EventObservationKind::PresentationTimeout,
                    turn: None,
                    native_session: s.native_session,
                    native_thread: s.native_thread,
                    evidence: why,
                },
            );
        }
    }

    fn unsettled_attempt(&self, event: SupervisorEventId) -> (r: Option<usize>)
        ensures
            match r {
                Some(k) => last_where(self@.event_attempts, is_unsettled_of(event)) == Some(
                    k as int,
                ) && k < self.event_attempts.len(),
                None => last_where(self@.event_attempts, is_unsettled_of(event)) is None,
            },
    {
        let mut i: usize = self.event_attempts.len();
        while i > 0
            invariant
                i <= self.event_attempts.len(),
                forall|j: int|
                    i <= j < self.event_attempts.len() ==> !is_unsettled_of(event)(
                        #[trigger] self.event_attempts@[j],
                    ),
            decreases i,
        {
            i -= 1;
            let a = self.event_attempts[i];
            if a.event == event && (a.state == AttemptState::Dispatching || a.state
                == AttemptState::Accepted) {
                proof {
                    last_found(self@.event_attempts, is_unsettled_of(event), i as int);
                }
                return Some(i);
            }
        }
        proof {
            last_missing(self@.event_attempts, is_unsettled_of(event));
        }
        None
    }

    /// Records that delivery of an event is in doubt.
    pub fn mark_supervisor_event_unknown(
        &mut self,
        id: SupervisorEventId,
        diagnostic: &str,
        key: TextKey,
    ) -> (r: Result<(), CoordinatorError>)
        ensures
            settles(
                r,
                old(self)@,
                final(self)@,
                plain(mark_event_unknown(old(self)@, id, diagnostic@, key)),
            ),
    {
        if is_blank(diagnostic) {
            return Err(
                refuse(ErrorCategory::InvalidInput, "ambiguous injection requires a diagnostic"),
            );
        }
        let k = match self.unsettled_attempt(id) {
            None => {
                return Err(
                    refuse(ErrorCategory::InvalidState, "event has no unsettled delivery attempt"),
                );
            },
            Some(k) => k,
        };
        let a = self.event_attempts[k];
        let open = match self.event_state(id) {
            Some(state) => state == SupervisorEventDeliveryState::Dispatching || state
                == SupervisorEventDeliveryState::Accepted,
            None => false,
        };
        if !open {
            return Err(
                refuse(
                    ErrorCategory::InvalidState,
                    "only a dispatching or accepted Supervisor event may become Unknown",
                ),
            );
        }
        let session = self.session(a.session);
        if a.state == AttemptState::Accepted && session.is_none() {
            return Err(refuse_missing_row());
        }
        let why = Wording::Given { text: key };
        self.move_event(id, SupervisorEventDeliveryState::Unknown);
        self.event_attempts.set(
            k,
            EventAttemptRow { state: AttemptState::Unknown, wrote: true, doubt: Some(why), ..a },
        );
        if a.state == AttemptState::Accepted {
            if let Some(s) = session {
                self.note_timeout(a, s, why);
            }
        }
        Ok(())
    }

    /// Puts every delivery that is under way in doubt.
    pub fn mark_unsettled_supervisor_delivery_unknown(&mut self, why: Wording)
        ensures
            final(self)@ == doubt_unsettled(old(self)@, why),
    {
        let n = self.event_attempts.len();
        let mut i: usize = 0;
        while i < n
            invariant
                i <= n,
                n == old(self)@.event_attempts.len(),
                n == self.event_attempts.len(),
                self@ == note_timeouts_upto(old(self)@, i as nat, why),
            decreases n - i,
        {
            proof {
                note_timeouts_frame(old(self)@, i as nat, why);
            }
            let a = self.event_attempts[i];
            if a.state == AttemptState::Accepted {
                if let Some(s) = self.session(a.session) {
                    self.note_timeout(a, s, why);
                }
            }
            i += 1;
            proof {
                note_timeouts_frame(old(self)@, i as nat, why);
            }
        }
        let ghost noted = self@;
        proof {
            note_timeouts_frame(old(self)@, n as nat, why);
        }
        let mut k: usize = 0;
        while k < n
            invariant
                k <= n,
                n == self.event_attempts.len(),
                n == noted.event_attempts.len(),
                self@ == (Model { event_attempts: self.event_attempts@, ..noted }),
                forall|j: int|
                    0 <= j < k ==> #[trigger] self.event_attempts@[j] == (if is_unsettled()(
                        noted.event_attempts[j],
                    ) {
                        doubt(noted.event_attempts[j], why)
                    } else {
                        noted.event_attempts[j]
                    }),
                forall|j: int|
                    k <= j < n ==> #[trigger] self.event_attempts@[j] == noted.event_attempts[j],
            decreases n - k,
        {
            let a = self.event_attempts[k];
            if a.state == AttemptState::Dispatching || a.state == AttemptState::Accepted {
                self.event_attempts.set(
                    k,
                    EventAttemptRow {
                        state: AttemptState::Unknown,
                        wrote: true,
                        doubt: Some(why),
                        ..a
                    },
                );
            }
            k += 1;
        }
        assert(self.event_attempts@ =~= update_where(
            noted.event_attempts,
            is_unsettled(),
            |a: EventAttemptRow| doubt(a, why),
        ));
        let ghost marked = self@;
        let count = self.events.len();
        let mut e: usize = 0;
        while e < count
            invariant
                e <= count,
                count == self.events.len(),
                count == marked.events.len(),
                self@ == (Model { events: self.events@, ..marked }),
                forall|j: int|
                    0 <= j < e ==> #[trigger] self.events@[j] == (if is_unsettled_event()(
                        marked.events[j],
                    ) {
                        in_state(marked.events[j], SupervisorEventDeliveryState::Unknown)
                    } else {
                        marked.events[j]
                    }),
                forall|j: int| e <= j < count ==> #[trigger] self.events@[j] == marked.events[j],
            decreases count - e,
        {
            let row = self.events[e];
            if row.state == SupervisorEventDeliveryState::Dispatching || row.state
                == SupervisorEventDeliveryState::Accepted {
                self.events.set(e, EventRow { state: SupervisorEventDeliveryState::Unknown, ..row });
            }
            e += 1;
        }
        assert(self.events@ =~= update_where(
            marked.events,
            is_unsettled_event(),
            |e: EventRow| in_state(e, SupervisorEventDeliveryState::Unknown),
        ));
    }
}

} // verus!

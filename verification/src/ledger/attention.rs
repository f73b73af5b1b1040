//! The Supervisor's answers to its events, and watches over Task graphs.
use vstd::prelude::*;

use crate::contract::SupervisorEventDeliveryState;
use crate::error::{refusal, refuse, CoordinatorError, ErrorCategory, Refusal};
use crate::identity::{
    uuid_form, uuid_text, DeliveryAttemptId, SupervisorEventId, TaskGraphWatchId, TaskId,
};
use crate::ledger::events::{event_state, in_state, move_event};
use crate::ledger::steps::{add_read, plain, settleable};
use crate::ledger::{complete_watches, find_task, is_event, settles, Ledger, Model};
use crate::rows::{
    AuthenticatedActor, EventAttemptRow, EventRow, HarnessKey, ReconciliationRow, TextKey,
    WatchRootRow, WatchRow,
};
use crate::select::{
    first_found, first_missing, first_where, last_found, last_missing, last_where, some_where,
};
use crate::text::{blank, byte_count, byte_len, is_blank, join3};

verus! {

// ---------------------------------------------------------------------------------------------
// Acknowledgement
// ---------------------------------------------------------------------------------------------

/// An event that cannot be acknowledged safely.
pub open spec fn is_unacknowledgeable(m: Model) -> spec_fn(SupervisorEventId) -> bool {
    |id: SupervisorEventId|
        match first_where(m.events, is_event(id)) {
            None => true,
            Some(i) => !settleable(m.events[i]),
        }
}

/// One event acknowledged, its source Message read by the actor.
pub open spec fn acknowledge(m: Model, actor: AuthenticatedActor, id: SupervisorEventId) -> Model {
    match first_where(m.events, is_event(id)) {
        None => m,
        Some(i) => {
            let moved = Model {
                events: m.events.update(
                    i,
                    in_state(m.events[i], SupervisorEventDeliveryState::Processed),
                ),
                ..m
            };
            match m.events[i].message {
                Some(message) => add_read(moved, actor.id, message),
                None => moved,
            }
        },
    }
}

/// The first `n` events acknowledged, in order.
pub open spec fn acknowledge_upto(
    m: Model,
    actor: AuthenticatedActor,
    ids: Seq<SupervisorEventId>,
    n: nat,
) -> Model
    decreases n,
{
    if n == 0 {
        m
    } else {
        acknowledge(acknowledge_upto(m, actor, ids, (n - 1) as nat), actor, ids[n - 1])
    }
}

/// Acknowledgement of 1 to 32 different events, all of them or none.
pub open spec fn acknowledge_events(
    m: Model,
    actor: AuthenticatedActor,
    ids: Seq<SupervisorEventId>,
) -> Result<Model, Refusal> {
    if !(1 <= ids.len() <= 32) {
        Err(
            refusal(
                ErrorCategory::InvalidInput,
                "event acknowledgement requires 1 to 32 IDs"@,
            ),
        )
    } else if !ids.no_duplicates() {
        Err(
            refusal(
                ErrorCategory::InvalidInput,
                "event acknowledgement contains duplicate IDs"@,
            ),
        )
    } else if some_where(ids, is_unacknowledgeable(m)) {
        Err(refusal(ErrorCategory::InvalidState, "event is not safely acknowledgeable"@))
    } else {
        Ok(acknowledge_upto(m, actor, ids, ids.len()))
    }
}

impl Ledger {
    fn acknowledge(&mut self, actor: AuthenticatedActor, id: SupervisorEventId)
        ensures
            final(self)@ == acknowledge(old(self)@, actor, id),
    {
        if let Some(i) = self.event_position(id) {
            let e = self.events[i];
            self.events.set(i, EventRow { state: SupervisorEventDeliveryState::Processed, ..e });
            if let Some(message) = e.message {
                let _ = self.add_read(actor.id, message);
            }
        }
    }

    /// Acknowledges 1 to 32 different events, all of them or none.
    pub fn acknowledge_supervisor_events(
        &mut self,
        actor: AuthenticatedActor,
        ids: &Vec<SupervisorEventId>,
    ) -> (r: Result<(), CoordinatorError>)
        ensures
            settles(r, old(self)@, final(self)@, plain(acknowledge_events(old(self)@, actor, ids@))),
    {
        if ids.len() == 0 || ids.len() > 32 {
            return Err(
                refuse(ErrorCategory::InvalidInput, "event acknowledgement requires 1 to 32 IDs"),
            );
        }
        let mut a: usize = 0;
        while a < ids.len()
            invariant
                a <= ids.len(),
                1 <= ids.len() <= 32,
                self@ == old(self)@,
                forall|x: int, y: int| 0 <= x < a && x < y < ids.len() ==> ids@[x] != ids@[y],
            decreases ids.len() - a,
        {
            let mut b: usize = a + 1;
            while b < ids.len()
                invariant
                    a < b <= ids.len(),
                    1 <= ids.len() <= 32,
                    self@ == old(self)@,
                    forall|y: int| a < y < b ==> ids@[a as int] != ids@[y],
                decreases ids.len() - b,
            {
                if ids[a] == ids[b] {
                    assert(ids@[a as int] == ids@[b as int]);
                    return Err(
                        refuse(
                            ErrorCategory::InvalidInput,
                            "event acknowledgement contains duplicate IDs",
                        ),
                    );
                }
                b += 1;
            }
            a += 1;
        }
        assert(ids@.no_duplicates());
        let mut i: usize = 0;
        while i < ids.len()
            invariant
                i <= ids.len(),
                1 <= ids.len() <= 32,
                ids@.no_duplicates(),
                self@ == old(self)@,
                forall|j: int| 0 <= j < i ==> !is_unacknowledgeable(self@)(#[trigger] ids@[j]),
            decreases ids.len() - i,
        {
            let open = match self.event_position(ids[i]) {
                None => false,
                Some(k) => self.events[k].state == SupervisorEventDeliveryState::Pending
                    || self.events[k].state == SupervisorEventDeliveryState::Accepted,
            };
            if !open {
                assert(is_unacknowledgeable(self@)(ids@[i as int]));
                return Err(
                    refuse(ErrorCategory::InvalidState, "event is not safely acknowledgeable"),
                );
            }
            i += 1;
        }
        let mut k: usize = 0;
        while k < ids.len()
            invariant
                k <= ids.len(),
                self@ == acknowledge_upto(old(self)@, actor, ids@, k as nat),
            decreases ids.len() - k,
        {
            self.acknowledge(actor, ids[k]);
            k += 1;
        }
        Ok(())
    }
}

// ---------------------------------------------------------------------------------------------
// Reconciliation
// ---------------------------------------------------------------------------------------------

/// What the Supervisor decides about an event whose delivery is in doubt.
#[derive(Debug, Clone, Copy, PartialEq, Eq, Structural)]
pub enum SupervisorEventResolution {
    /// Deliver it again.
    Retry,
    /// It was dealt with.
    Processed,
    /// Drop it.
    Cancel,
}

pub open spec fn resolution_state(resolution: SupervisorEventResolution) -> SupervisorEventDeliveryState {
    match resolution {
        SupervisorEventResolution::Retry => SupervisorEventDeliveryState::Pending,
        SupervisorEventResolution::Processed => SupervisorEventDeliveryState::Processed,
        SupervisorEventResolution::Cancel => SupervisorEventDeliveryState::Cancelled,
    }
}

pub open spec fn is_event_attempt_of(event: SupervisorEventId) -> spec_fn(EventAttemptRow) -> bool {
    |a: EventAttemptRow| a.event == event
}

/// The record of a resolution, with the latest attempt of the event.
pub open spec fn reconciliation(
    m: Model,
    id: SupervisorEventId,
    resolution: SupervisorEventResolution,
    note: TextKey,
) -> ReconciliationRow {
    ReconciliationRow {
        event: id,
        attempt: match last_where(m.event_attempts, is_event_attempt_of(id)) {
            Some(k) => Some(m.event_attempts[k].id),
            None => None,
        },
        resolution,
        note,
    }
}

/// The resolution of an event whose delivery is in doubt, recorded with its audit note, of which
/// `key` is the number.
pub open spec fn reconcile_event(
    m: Model,
    id: SupervisorEventId,
    resolution: SupervisorEventResolution,
    note: Seq<char>,
    key: TextKey,
) -> Result<(Model, SupervisorEventDeliveryState), Refusal> {
    if blank(note) || byte_count(note) > 4096 {
        Err(
            refusal(
                ErrorCategory::InvalidInput,
                "reconciliation audit note must contain 1 to 4096 bytes"@,
            ),
        )
    } else if event_state(m, id) != Some(SupervisorEventDeliveryState::Unknown) {
        Err(
            refusal(
                ErrorCategory::InvalidState,
                "only an Unknown Supervisor event may be reconciled"@,
            ),
        )
    } else {
        let moved = move_event(m, id, resolution_state(resolution));
        Ok(
            (
                Model {
                    reconciliations: m.reconciliations.push(
                        reconciliation(m, id, resolution, key),
                    ),
                    ..moved
                },
                resolution_state(resolution),
            ),
        )
    }
}

impl Ledger {
    fn latest_event_attempt(&self, event: SupervisorEventId) -> (r: Option<DeliveryAttemptId>)
        ensures
            r == (match last_where(self@.event_attempts, is_event_attempt_of(event)) {
                Some(k) => Some(self@.event_attempts[k].id),
                None => None,
            }),
    {
        let mut i: usize = self.event_attempts.len();
        while i > 0
            invariant
                i <= self.event_attempts.len(),
                forall|j: int|
                    i <= j < self.event_attempts.len() ==> !is_event_attempt_of(event)(
                        #[trigger] self.event_attempts@[j],
                    ),
            decreases i,
        {
            i -= 1;
            if self.event_attempts[i].event == event {
                proof {
                    last_found(self@.event_attempts, is_event_attempt_of(event), i as int);
                }
                return Some(self.event_attempts[i].id);
            }
        }
        proof {
            last_missing(self@.event_attempts, is_event_attempt_of(event));
        }
        None
    }

    /// Resolves an event whose delivery is in doubt.
    pub fn reconcile_supervisor_event(
        &mut self,
        id: SupervisorEventId,
        resolution: SupervisorEventResolution,
        note: &str,
        key: TextKey,
    ) -> (r: Result<SupervisorEventDeliveryState, CoordinatorError>)
        ensures
            settles(
                r,
                old(self)@,
                final(self)@,
                reconcile_event(old(self)@, id, resolution, note@, key),
            ),
    {
        if is_blank(note) || byte_len(note) > 4096 {
            return Err(
                refuse(
                    ErrorCategory::InvalidInput,
                    "reconciliation audit note must contain 1 to 4096 bytes",
                ),
            );
        }
        let state = match resolution {
            SupervisorEventResolution::Retry => SupervisorEventDeliveryState::Pending,
            SupervisorEventResolution::Processed => SupervisorEventDeliveryState::Processed,
            SupervisorEventResolution::Cancel => SupervisorEventDeliveryState::Cancelled,
        };
        match self.event_position(id) {
            Some(i) => {
                let e = self.events[i];
                if e.state == SupervisorEventDeliveryState::Unknown {
                    let attempt = self.latest_event_attempt(id);
                    self.events.set(i, EventRow { state, ..e });
                    self.reconciliations.push(
                        ReconciliationRow { event: id, attempt, resolution, note: key },
                    );
                    return Ok(state);
                }
            },
            None => {},
        }
        Err(
            refuse(
                ErrorCategory::InvalidState,
                "only an Unknown Supervisor event may be reconciled",
            ),
        )
    }
}

// ---------------------------------------------------------------------------------------------
// Watches
// ---------------------------------------------------------------------------------------------

pub open spec fn is_missing_task(m: Model) -> spec_fn(TaskId) -> bool {
    |id: TaskId| find_task(m, id) is None
}

/// A watch with the same identity, or of the same Supervisor under the same request key.
pub open spec fn is_clashing_watch(
    id: TaskGraphWatchId,
    supervisor: HarnessKey,
    key: Option<TextKey>,
) -> spec_fn(WatchRow) -> bool {
    |w: WatchRow| w.id == id || (key is Some && w.supervisor == supervisor && w.request_key == key)
}

pub open spec fn roots_of(id: TaskGraphWatchId, tasks: Seq<TaskId>) -> Seq<WatchRootRow> {
    Seq::new(tasks.len(), |i: int| WatchRootRow { watch: id, task: tasks[i] })
}

/// Why a watch is refused.
pub open spec fn watch_refusal(
    m: Model,
    actor: AuthenticatedActor,
    id: TaskGraphWatchId,
    roots: Seq<TaskId>,
    key: Option<TextKey>,
) -> Option<Refusal> {
    if !(1 <= roots.len() <= 32) {
        Some(
            refusal(
                ErrorCategory::InvalidInput,
                "Task graph watch requires 1 to 32 root Tasks"@,
            ),
        )
    } else if !roots.no_duplicates() {
        Some(
            refusal(ErrorCategory::InvalidInput, "Task graph watch contains duplicate roots"@),
        )
    } else {
        match first_where(roots, is_missing_task(m)) {
            Some(i) => Some(
                refusal(
                    ErrorCategory::NotFound,
                    "root Task "@ + uuid_form(roots[i].0) + " does not exist"@,
                ),
            ),
            None => if some_where(m.watches, is_clashing_watch(id, actor.id, key)) {
                Some(
                    refusal(ErrorCategory::Conflict, "Task graph watch is already registered"@),
                )
            } else {
                None
            },
        }
    }
}

/// A watch over 1 to 32 different Tasks; one whose Tasks are all settled completes at once.
pub open spec fn watch_graph(
    m: Model,
    actor: AuthenticatedActor,
    id: TaskGraphWatchId,
    roots: Seq<TaskId>,
    key: Option<TextKey>,
) -> Result<Model, Refusal> {
    if watch_refusal(m, actor, id, roots, key) is Some {
        Err(watch_refusal(m, actor, id, roots, key)->0)
    } else {
        Ok(
            complete_watches(
                Model {
                    watches: m.watches.push(
                        WatchRow { id, supervisor: actor.id, request_key: key, completed: false },
                    ),
                    watch_roots: m.watch_roots + roots_of(id, roots),
                    ..m
                },
            ),
        )
    }
}

impl Ledger {
    fn has_clashing_watch(
        &self,
        id: TaskGraphWatchId,
        supervisor: HarnessKey,
        key: Option<TextKey>,
    ) -> (r: bool)
        ensures
            r == some_where(self@.watches, is_clashing_watch(id, supervisor, key)),
    {
        let mut i: usize = 0;
        while i < self.watches.len()
            invariant
                i <= self.watches.len(),
                forall|j: int|
                    0 <= j < i ==> !is_clashing_watch(id, supervisor, key)(
                        #[trigger] self.watches@[j],
                    ),
            decreases self.watches.len() - i,
        {
            let w = self.watches[i];
            let same_key = match (w.request_key, key) {
                (Some(a), Some(b)) => a == b,
                _ => false,
            };
            if w.id == id || (same_key && w.supervisor == supervisor) {
                assert(is_clashing_watch(id, supervisor, key)(self@.watches[i as int]));
                return true;
            }
            i += 1;
        }
        false
    }

    fn require_watchable(
        &self,
        actor: AuthenticatedActor,
        id: TaskGraphWatchId,
        roots: &Vec<TaskId>,
        key: Option<TextKey>,
    ) -> (r: Result<(), CoordinatorError>)
        ensures
            match watch_refusal(self@, actor, id, roots@, key) {
                None => r is Ok,
                Some(e) => r is Err && r->Err_0@ == e,
            },
    {
        if roots.len() == 0 || roots.len() > 32 {
            return Err(
                refuse(ErrorCategory::InvalidInput, "Task graph watch requires 1 to 32 root Tasks"),
            );
        }
        let mut a: usize = 0;
        while a < roots.len()
            invariant
                a <= roots.len(),
                1 <= roots.len() <= 32,
                forall|x: int, y: int| 0 <= x < a && x < y < roots.len() ==> roots@[x] != roots@[y],
            decreases roots.len() - a,
        {
            let mut b: usize = a + 1;
            while b < roots.len()
                invariant
                    a < b <= roots.len(),
                    1 <= roots.len() <= 32,
                    forall|y: int| a < y < b ==> roots@[a as int] != roots@[y],
                decreases roots.len() - b,
            {
                if roots[a] == roots[b] {
                    assert(roots@[a as int] == roots@[b as int]);
                    return Err(
                        refuse(
                            ErrorCategory::InvalidInput,
                            "Task graph watch contains duplicate roots",
                        ),
                    );
                }
                b += 1;
            }
            a += 1;
        }
        assert(roots@.no_duplicates());
        let mut i: usize = 0;
        while i < roots.len()
            invariant
                i <= roots.len(),
                1 <= roots.len() <= 32,
                roots@.no_duplicates(),
                forall|j: int| 0 <= j < i ==> !is_missing_task(self@)(#[trigger] roots@[j]),
            decreases roots.len() - i,
        {
            if self.task(roots[i]).is_none() {
                proof {
                    first_found(roots@, is_missing_task(self@), i as int);
                }
                let text = uuid_text(roots[i].0);
                return Err(
                    CoordinatorError::new(
                        ErrorCategory::NotFound,
                        join3("root Task ", text.as_str(), " does not exist"),
                    ),
                );
            }
            i += 1;
        }
        proof {
            first_missing(roots@, is_missing_task(self@));
        }
        if self.has_clashing_watch(id, actor.id, key) {
            return Err(refuse(ErrorCategory::Conflict, "Task graph watch is already registered"));
        }
        Ok(())
    }

    /// Watches 1 to 32 different Tasks.
    pub fn watch_task_graph(
        &mut self,
        actor: AuthenticatedActor,
        id: TaskGraphWatchId,
        roots: &Vec<TaskId>,
        key: Option<TextKey>,
    ) -> (r: Result<(), CoordinatorError>)
        ensures
            settles(
                r,
                old(self)@,
                final(self)@,
                plain(watch_graph(old(self)@, actor, id, roots@, key)),
            ),
    {
        match self.require_watchable(actor, id, roots, key) {
            Err(e) => {
                return Err(e);
            },
            Ok(_) => {},
        }
        self.watches.push(
            WatchRow { id, supervisor: actor.id, request_key: key, completed: false },
        );
        let ghost watched = self@;
        let mut i: usize = 0;
        assert(self@.watch_roots =~= watched.watch_roots + roots_of(id, roots@).take(0));
        while i < roots.len()
            invariant
                i <= roots.len(),
                self@ == (Model {
                    watch_roots: watched.watch_roots + roots_of(id, roots@).take(i as int),
                    ..watched
                }),
            decreases roots.len() - i,
        {
            self.watch_roots.push(WatchRootRow { watch: id, task: roots[i] });
            i += 1;
            assert(self@.watch_roots =~= watched.watch_roots + roots_of(id, roots@).take(i as int));
        }
        assert(self@.watch_roots =~= watched.watch_roots + roots_of(id, roots@));
        self.complete_watches();
        Ok(())
    }
}

} // verus!

//! Stopping Workers and workspaces, failing Hosts, and the replayable log of Host events.
use vstd::prelude::*;

use crate::contract::{
    Activity, HarnessTier, ObservationCheckpoint, Presence, RepositoryAccess, TaskState,
};
use crate::error::{outcome, refusal, refuse, CoordinatorError, ErrorCategory, Refusal};
use crate::identity::HarnessSessionId;
use crate::ledger::cascade::cascade;
use crate::ledger::evidence::{
    announce_hold, concludes, fail_for_missing_evidence, record_checkpoint, NewObservation,
};
use crate::ledger::hosts::{close_session, drop_connection, live};
use crate::ledger::settlement::{refuse_missing_row, row_missing};
use crate::ledger::steps::{add_hold, plain, release_lease, revision_overflow, transition};
use crate::ledger::{
    active_state, is_active_state, is_live_session, is_task, occupies, record_transition, settles,
    Ledger, Model,
};
use crate::rows::{
    AuthenticatedActor, EventOrigin, HarnessKey, HoldReason, HoldRow, HostEventRow, LeaseRow,
    SessionRow, TaskRow, TextKey, TransitionReason, Wording,
};
use crate::select::{
    first_found, first_missing, first_says, first_where, last_found, last_missing, last_where,
    some_where,
};
use crate::text::{blank, byte_count, byte_len, is_blank};

verus! {

// ---------------------------------------------------------------------------------------------
// Stopping
// ---------------------------------------------------------------------------------------------

pub open spec fn is_live_worker_session(worker: HarnessKey) -> spec_fn(SessionRow) -> bool {
    |s: SessionRow| s.harness == worker && s.tier == HarnessTier::Worker && !s.ended
}

/// Work of a Worker that is asked to stop with it.
pub open spec fn is_stoppable_of(worker: HarnessKey) -> spec_fn(TaskRow) -> bool {
    |t: TaskRow|
        t.worker == worker && (t.state == TaskState::Dispatching || t.state == TaskState::Working
            || t.state == TaskState::Waiting || t.state == TaskState::Reviewing)
}

/// The first piece of work of a Worker asked to stop.
pub open spec fn stop_work(m: Model, worker: HarnessKey) -> Result<Model, Refusal> {
    match first_where(m.tasks, is_stoppable_of(worker)) {
        None => Ok(m),
        Some(i) => transition(m, m.tasks[i].id, m.tasks[i].state, TaskState::Cancelling, false),
    }
}

/// A Worker asked to stop.
pub open spec fn stop_worker(m: Model, worker: HarnessKey, now: u64) -> Result<Model, Refusal> {
    match last_where(m.sessions, is_live_worker_session(worker)) {
        None => Err(refusal(ErrorCategory::TargetOffline, "Worker has no live Session"@)),
        Some(i) => match stop_work(m, worker) {
            Err(e) => Err(e),
            Ok(next) => Ok(
                Model {
                    sessions: next.sessions.update(
                        i,
                        SessionRow {
                            activity: Activity::Stopping,
                            last_seen: now,
                            ..next.sessions[i]
                        },
                    ),
                    ..next
                },
            ),
        },
    }
}

/// A Task that is not finished.
pub open spec fn is_unfinished() -> spec_fn(TaskRow) -> bool {
    |t: TaskRow| t.state == TaskState::Queued || active_state(t.state)
}

pub open spec fn is_active_hold() -> spec_fn(HoldRow) -> bool {
    |h: HoldRow| !h.cleared
}

pub open spec fn is_active_lease() -> spec_fn(LeaseRow) -> bool {
    |l: LeaseRow| !l.released
}

pub open spec fn is_any_live_worker() -> spec_fn(SessionRow) -> bool {
    |s: SessionRow| s.tier == HarnessTier::Worker && !s.ended
}

/// A workspace in which nothing is left to do.
pub open spec fn quiet(m: Model) -> bool {
    &&& !some_where(m.tasks, is_unfinished())
    &&& !some_where(m.holds, is_active_hold())
    &&& !some_where(m.leases, is_active_lease())
    &&& !some_where(m.sessions, is_any_live_worker())
}

/// A live Session of the Supervisor tier.
pub open spec fn live_supervisor_session(m: Model, id: HarnessSessionId) -> bool {
    match first_where(m.sessions, is_live_session(id)) {
        Some(i) => m.sessions[i].tier == HarnessTier::Supervisor,
        None => false,
    }
}

/// Deactivation of a quiet workspace ends the Supervisor's Session.
pub open spec fn deactivate(m: Model, actor: AuthenticatedActor, now: u64) -> Result<Model, Refusal> {
    if !quiet(m) {
        Err(
            refusal(
                ErrorCategory::Conflict,
                "workspace deactivation requires no active Task, Hold, lease, or Worker Session"@,
            ),
        )
    } else if !live_supervisor_session(m, actor.session) {
        Err(refusal(ErrorCategory::InvalidState, "Supervisor Session is not active"@))
    } else {
        Ok(close_session(m, actor.session, Presence::Stopped, Activity::Idle, now))
    }
}

/// A Worker Host that stopped; it stops cleanly only without active work.
pub open spec fn host_stopped(m: Model, actor: AuthenticatedActor, clean: bool, now: u64) -> Result<
    Model,
    Refusal,
> {
    if actor.tier != HarnessTier::Worker {
        Err(refusal(ErrorCategory::Forbidden, "only a Worker Host may report its shutdown"@))
    } else if clean && some_where(m.tasks, occupies(actor.id, None)) {
        Err(
            refusal(
                ErrorCategory::InvalidState,
                "clean Host stop requires active Task cancellation to settle first"@,
            ),
        )
    } else {
        Ok(
            close_session(
                drop_connection(m, actor.connection, Wording::HostStopped { clean }),
                actor.session,
                if clean {
                    Presence::Stopped
                } else {
                    Presence::Failed
                },
                if clean {
                    Activity::Idle
                } else {
                    Activity::Failed
                },
                now,
            ),
        )
    }
}

impl Ledger {
    fn live_worker_session(&self, worker: HarnessKey) -> (r: Option<usize>)
        ensures
            match r {
                Some(i) => last_where(self@.sessions, is_live_worker_session(worker)) == Some(
                    i as int,
                ) && i < self.sessions.len(),
                None => last_where(self@.sessions, is_live_worker_session(worker)) is None,
            },
    {
        let mut i: usize = self.sessions.len();
        while i > 0
            invariant
                i <= self.sessions.len(),
                forall|j: int|
                    i <= j < self.sessions.len() ==> !is_live_worker_session(worker)(
                        #[trigger] self.sessions@[j],
                    ),
            decreases i,
        {
            i -= 1;
            let s = self.sessions[i];
            if s.harness == worker && s.tier == HarnessTier::Worker && !s.ended {
                proof {
                    last_found(self@.sessions, is_live_worker_session(worker), i as int);
                }
                return Some(i);
            }
        }
        proof {
            last_missing(self@.sessions, is_live_worker_session(worker));
        }
        None
    }

    fn stoppable(&self, worker: HarnessKey) -> (r: Option<usize>)
        ensures
            match r {
                Some(i) => first_where(self@.tasks, is_stoppable_of(worker)) == Some(i as int) && i
                    < self.tasks.len(),
                None => first_where(self@.tasks, is_stoppable_of(worker)) is None,
            },
    {
        let mut i: usize = 0;
        while i < self.tasks.len()
            invariant
                i <= self.tasks.len(),
                forall|j: int| 0 <= j < i ==> !is_stoppable_of(worker)(#[trigger] self.tasks@[j]),
            decreases self.tasks.len() - i,
        {
            let t = self.tasks[i];
            let running = match t.state {
                TaskState::Dispatching
                | TaskState::Working
                | TaskState::Waiting
                | TaskState::Reviewing => true,
                _ => false,
            };
            if t.worker == worker && running {
                proof {
                    first_found(self@.tasks, is_stoppable_of(worker), i as int);
                }
                return Some(i);
            }
            i += 1;
        }
        proof {
            first_missing(self@.tasks, is_stoppable_of(worker));
        }
        None
    }

    /// Asks a Worker to stop.
    pub fn stop_worker(&mut self, worker: HarnessKey, now: u64) -> (r: Result<(), CoordinatorError>)
        ensures
            settles(r, old(self)@, final(self)@, plain(stop_worker(old(self)@, worker, now))),
    {
        let i = match self.live_worker_session(worker) {
            None => {
                return Err(refuse(ErrorCategory::TargetOffline, "Worker has no live Session"));
            },
            Some(i) => i,
        };
        if let Some(k) = self.stoppable(worker) {
            let t = self.tasks[k];
            let ghost before = self@;
            match self.transition_exact(t.id, t.state, TaskState::Cancelling, false) {
                Err(e) => {
                    return Err(e);
                },
                Ok(_) => {},
            }
            proof {
                let x = first_where(before.tasks, is_task(t.id))->0;
                crate::ledger::record_transition_frame(
                    Model {
                        tasks: before.tasks.update(
                            x,
                            TaskRow { state: TaskState::Cancelling, ..before.tasks[x] },
                        ),
                        ..before
                    },
                    t.id,
                    t.state,
                    TaskState::Cancelling,
                    TransitionReason::Plain,
                );
            }
            assert(self@.sessions == before.sessions);
        }
        let s = self.sessions[i];
        self.sessions.set(i, SessionRow { activity: Activity::Stopping, last_seen: now, ..s });
        Ok(())
    }

    fn is_quiet(&self) -> (r: bool)
        ensures
            r == quiet(self@),
    {
        let mut i: usize = 0;
        while i < self.tasks.len()
            invariant
                i <= self.tasks.len(),
                forall|j: int| 0 <= j < i ==> !is_unfinished()(#[trigger] self.tasks@[j]),
            decreases self.tasks.len() - i,
        {
            if self.tasks[i].state == TaskState::Queued || is_active_state(self.tasks[i].state) {
                assert(is_unfinished()(self@.tasks[i as int]));
                return false;
            }
            i += 1;
        }
        let mut h: usize = 0;
        while h < self.holds.len()
            invariant
                h <= self.holds.len(),
                forall|j: int| 0 <= j < h ==> !is_active_hold()(#[trigger] self.holds@[j]),
            decreases self.holds.len() - h,
        {
            if !self.holds[h].cleared {
                assert(is_active_hold()(self@.holds[h as int]));
                return false;
            }
            h += 1;
        }
        let mut l: usize = 0;
        while l < self.leases.len()
            invariant
                l <= self.leases.len(),
                forall|j: int| 0 <= j < l ==> !is_active_lease()(#[trigger] self.leases@[j]),
            decreases self.leases.len() - l,
        {
            if !self.leases[l].released {
                assert(is_active_lease()(self@.leases[l as int]));
                return false;
            }
            l += 1;
        }
        let mut s: usize = 0;
        while s < self.sessions.len()
            invariant
                s <= self.sessions.len(),
                forall|j: int| 0 <= j < s ==> !is_any_live_worker()(#[trigger] self.sessions@[j]),
            decreases self.sessions.len() - s,
        {
            if self.sessions[s].tier == HarnessTier::Worker && !self.sessions[s].ended {
                assert(is_any_live_worker()(self@.sessions[s as int]));
                return false;
            }
            s += 1;
        }
        assert(forall|j: int|
            0 <= j < self@.tasks.len() ==> !is_unfinished()(#[trigger] self@.tasks[j]));
        true
    }

    /// Deactivates a quiet workspace.
    pub fn deactivate_workspace(&mut self, actor: AuthenticatedActor, now: u64) -> (r: Result<
        (),
        CoordinatorError,
    >)
        ensures
            settles(r, old(self)@, final(self)@, plain(deactivate(old(self)@, actor, now))),
    {
        if !self.is_quiet() {
            return Err(
                refuse(
                    ErrorCategory::Conflict,
                    "workspace deactivation requires no active Task, Hold, lease, or Worker Session",
                ),
            );
        }
        let supervises = match self.live_session_position(actor.session) {
            Some(i) => self.sessions[i].tier == HarnessTier::Supervisor,
            None => false,
        };
        if !supervises {
            return Err(refuse(ErrorCategory::InvalidState, "Supervisor Session is not active"));
        }
        let _ = self.close_session(actor.session, Presence::Stopped, Activity::Idle, now);
        Ok(())
    }

    /// Records that a Worker Host stopped.
    pub fn record_host_stopped(&mut self, actor: AuthenticatedActor, clean: bool, now: u64) -> (r:
        Result<(), CoordinatorError>)
        ensures
            settles(r, old(self)@, final(self)@, plain(host_stopped(old(self)@, actor, clean, now))),
    {
        if actor.tier != HarnessTier::Worker {
            return Err(
                refuse(ErrorCategory::Forbidden, "only a Worker Host may report its shutdown"),
            );
        }
        if clean && self.is_occupied(actor.id, None) {
            return Err(
                refuse(
                    ErrorCategory::InvalidState,
                    "clean Host stop requires active Task cancellation to settle first",
                ),
            );
        }
        self.drop_connection(actor.connection, Wording::HostStopped { clean });
        let (presence, activity) = if clean {
            (Presence::Stopped, Activity::Idle)
        } else {
            (Presence::Failed, Activity::Failed)
        };
        let _ = self.close_session(actor.session, presence, activity, now);
        Ok(())
    }
}

// ---------------------------------------------------------------------------------------------
// Failure
// ---------------------------------------------------------------------------------------------

/// The Task that occupies a Worker.
pub open spec fn active_task(m: Model, worker: HarnessKey) -> Option<TaskRow> {
    match first_where(m.tasks, occupies(worker, None)) {
        Some(i) => Some(m.tasks[i]),
        None => None,
    }
}

/// Work lost with its Host fails; work under review, or in doubt already, keeps its state.
pub open spec fn fail_with_host(m: Model, t: TaskRow, why: Wording) -> Model {
    match first_where(m.tasks, is_task(t.id)) {
        Some(i) if t.state != TaskState::DeliveryUnknown && t.state != TaskState::Reviewing
            && m.tasks[i].state == t.state => cascade(
            record_transition(
                Model {
                    tasks: m.tasks.update(i, TaskRow { state: TaskState::Failed, ..m.tasks[i] }),
                    ..m
                },
                t.id,
                t.state,
                TaskState::Failed,
                TransitionReason::HostFailure { why },
            ),
            t.id,
        ),
        _ => m,
    }
}

/// The worktree of lost work: held where the work could write, given back otherwise.
pub open spec fn guard_lost_work(m: Model, t: TaskRow) -> Model {
    if t.access == RepositoryAccess::Mutating {
        announce_hold(
            add_hold(m, t.worktree, t.id, HoldReason::WorkerHostFailed),
            t.id,
            EventOrigin::Hold { task: t.id, reason: HoldReason::WorkerHostFailed },
        )
    } else {
        release_lease(m, t.id)
    }
}

/// The settlement of a failed Host.
pub open spec fn settle_host_failure(
    m: Model,
    actor: AuthenticatedActor,
    lost: Option<TaskRow>,
    why: Wording,
    now: u64,
) -> Model {
    let dropped = drop_connection(m, actor.connection, why);
    let settled = match lost {
        None => dropped,
        Some(t) => guard_lost_work(fail_with_host(dropped, t, why), t),
    };
    close_session(settled, actor.session, Presence::Failed, Activity::Failed, now)
}

/// A failed Worker Host: the repository of its work is observed first, and work whose evidence
/// cannot be had fails for that. `why` stands for the diagnostic.
pub open spec fn host_failed(
    m: Model,
    actor: AuthenticatedActor,
    diagnostic: Seq<char>,
    why: Wording,
    captured: Result<NewObservation, Refusal>,
    now: u64,
) -> (Model, Result<(), Refusal>) {
    if actor.tier != HarnessTier::Worker {
        (
            m,
            Err(refusal(ErrorCategory::Forbidden, "only a Worker Host may report its failure"@)),
        )
    } else if blank(diagnostic) || byte_count(diagnostic) > 16_384 {
        (
            m,
            Err(
                refusal(
                    ErrorCategory::InvalidInput,
                    "Host failure diagnostic must contain 1 to 16,384 bytes"@,
                ),
            ),
        )
    } else {
        match active_task(m, actor.id) {
            None => (settle_host_failure(m, actor, None, why, now), Ok(())),
            Some(t) => match record_checkpoint(m, t.id, ObservationCheckpoint::Failure, captured) {
                Ok(seen) => (settle_host_failure(seen, actor, Some(t), why, now), Ok(())),
                Err(_) => match fail_for_missing_evidence(m, t.id, seq![t.state]) {
                    Err(e) => (m, Err(e)),
                    Ok(failed) => match host_stopped(failed, actor, false, now) {
                        Err(e) => (failed, Err(e)),
                        Ok(next) => (next, Ok(())),
                    },
                },
            },
        }
    }
}

impl Ledger {
    /// The Task that occupies a Worker.
    pub fn active_task(&self, worker: HarnessKey) -> (r: Option<TaskRow>)
        ensures
            r == active_task(self@, worker),
    {
        let mut i: usize = 0;
        while i < self.tasks.len()
            invariant
                i <= self.tasks.len(),
                forall|j: int| 0 <= j < i ==> !occupies(worker, None)(#[trigger] self.tasks@[j]),
            decreases self.tasks.len() - i,
        {
            let t = self.tasks[i];
            if t.worker == worker && is_active_state(t.state) {
                proof {
                    first_found(self@.tasks, occupies(worker, None), i as int);
                }
                return Some(t);
            }
            i += 1;
        }
        proof {
            first_missing(self@.tasks, occupies(worker, None));
        }
        None
    }

    fn fail_with_host(&mut self, t: TaskRow, why: Wording)
        ensures
            final(self)@ == fail_with_host(old(self)@, t, why),
    {
        if t.state == TaskState::DeliveryUnknown || t.state == TaskState::Reviewing {
            return ;
        }
        if let Some(i) = self.task_position(t.id) {
            let row = self.tasks[i];
            if row.state == t.state {
                self.tasks.set(i, TaskRow { state: TaskState::Failed, ..row });
                self.record_transition(
                    t.id,
                    t.state,
                    TaskState::Failed,
                    TransitionReason::HostFailure { why },
                );
                self.cascade_failed_dependencies(t.id);
            }
        }
    }

    fn guard_lost_work(&mut self, t: TaskRow)
        ensures
            final(self)@ == guard_lost_work(old(self)@, t),
    {
        if t.access == RepositoryAccess::Mutating {
            let _ = self.add_hold(t.worktree, t.id, HoldReason::WorkerHostFailed);
            self.announce_hold(
                t.id,
                EventOrigin::Hold { task: t.id, reason: HoldReason::WorkerHostFailed },
            );
        } else {
            self.release_lease(t.id);
        }
    }

    fn settle_host_failure(
        &mut self,
        actor: AuthenticatedActor,
        lost: Option<TaskRow>,
        why: Wording,
        now: u64,
    )
        ensures
            final(self)@ == settle_host_failure(old(self)@, actor, lost, why, now),
    {
        self.drop_connection(actor.connection, why);
        if let Some(t) = lost {
            self.fail_with_host(t, why);
            self.guard_lost_work(t);
        }
        let _ = self.close_session(actor.session, Presence::Failed, Activity::Failed, now);
    }

    /// Records that a Worker Host failed.
    pub fn record_host_failed(
        &mut self,
        actor: AuthenticatedActor,
        diagnostic: &str,
        why: Wording,
        captured: Result<NewObservation, CoordinatorError>,
        now: u64,
    ) -> (r: Result<(), CoordinatorError>)
        ensures
            concludes(
                r,
                final(self)@,
                host_failed(old(self)@, actor, diagnostic@, why, outcome(captured), now),
            ),
    {
        if actor.tier != HarnessTier::Worker {
            return Err(
                refuse(ErrorCategory::Forbidden, "only a Worker Host may report its failure"),
            );
        }
        if is_blank(diagnostic) || byte_len(diagnostic) > 16_384 {
            return Err(
                refuse(
                    ErrorCategory::InvalidInput,
                    "Host failure diagnostic must contain 1 to 16,384 bytes",
                ),
            );
        }
        match self.active_task(actor.id) {
            None => {
                self.settle_host_failure(actor, None, why, now);
                Ok(())
            },
            Some(t) => match self.capture_repository_checkpoint(
                t.id,
                ObservationCheckpoint::Failure,
                captured,
            ) {
                Ok(_) => {
                    self.settle_host_failure(actor, Some(t), why, now);
                    Ok(())
                },
                Err(_) => {
                    let expected = [t.state];
                    assert(expected@ =~= seq![t.state]);
                    match self.fail_task_for_missing_evidence(t.id, &expected) {
                        Err(e) => Err(e),
                        Ok(_) => self.record_host_stopped(actor, false, now),
                    }
                },
            },
        }
    }
}

// ---------------------------------------------------------------------------------------------
// Host events
// ---------------------------------------------------------------------------------------------

pub open spec fn is_host_event(session: HarnessSessionId, sequence: u64) -> spec_fn(
    HostEventRow,
) -> bool {
    |e: HostEventRow| e.session == session && e.sequence == sequence
}

/// One Host event: the next in sequence is recorded, an earlier one must be a faithful replay, and
/// a gap is refused. `size` is the length of its stored form, of which `content` is the number.
pub open spec fn host_event(
    m: Model,
    actor: AuthenticatedActor,
    sequence: u64,
    content: TextKey,
    size: usize,
    now: u64,
) -> Result<Model, Refusal> {
    if actor.tier != HarnessTier::Worker || sequence == 0 {
        Err(
            refusal(
                ErrorCategory::InvalidInput,
                "Worker Host event sequence must start at one"@,
            ),
        )
    } else if sequence > i64::MAX {
        Err(revision_overflow())
    } else if size > 65_536 {
        Err(refusal(ErrorCategory::InvalidInput, "Host event exceeds 65,536 bytes"@))
    } else {
        match first_where(m.sessions, is_live_session(actor.session)) {
            None => Err(row_missing()),
            Some(i) => {
                let current = m.sessions[i].event_sequence;
                if sequence <= current {
                    match first_where(m.host_events, is_host_event(actor.session, sequence)) {
                        Some(k) if m.host_events[k].content == content => Ok(m),
                        _ => Err(
                            refusal(
                                ErrorCategory::Conflict,
                                "replayed Host event differs from durable event"@,
                            ),
                        ),
                    }
                } else if sequence == current + 1 {
                    Ok(
                        Model {
                            host_events: m.host_events.push(
                                HostEventRow { session: actor.session, sequence, content },
                            ),
                            sessions: m.sessions.update(
                                i,
                                SessionRow {
                                    event_sequence: sequence,
                                    last_seen: now,
                                    ..m.sessions[i]
                                },
                            ),
                            ..m
                        },
                    )
                } else {
                    Err(refusal(ErrorCategory::Conflict, "Host event sequence has a gap"@))
                }
            },
        }
    }
}

impl Ledger {
    fn host_event_content(&self, session: HarnessSessionId, sequence: u64) -> (r: Option<TextKey>)
        ensures
            r == (match first_where(self@.host_events, is_host_event(session, sequence)) {
                Some(k) => Some(self@.host_events[k].content),
                None => None,
            }),
    {
        let mut i: usize = 0;
        while i < self.host_events.len()
            invariant
                i <= self.host_events.len(),
                forall|j: int|
                    0 <= j < i ==> !is_host_event(session, sequence)(
                        #[trigger] self.host_events@[j],
                    ),
            decreases self.host_events.len() - i,
        {
            let e = self.host_events[i];
            if e.session == session && e.sequence == sequence {
                proof {
                    first_found(self@.host_events, is_host_event(session, sequence), i as int);
                }
                return Some(e.content);
            }
            i += 1;
        }
        proof {
            first_missing(self@.host_events, is_host_event(session, sequence));
        }
        None
    }

    /// Records one Host event, or checks a replay.
    pub fn record_host_event(
        &mut self,
        actor: AuthenticatedActor,
        sequence: u64,
        content: TextKey,
        size: usize,
        now: u64,
    ) -> (r: Result<(), CoordinatorError>)
        ensures
            settles(
                r,
                old(self)@,
                final(self)@,
                plain(host_event(old(self)@, actor, sequence, content, size, now)),
            ),
    {
        if actor.tier != HarnessTier::Worker || sequence == 0 {
            return Err(
                refuse(ErrorCategory::InvalidInput, "Worker Host event sequence must start at one"),
            );
        }
        if sequence > 0x7fff_ffff_ffff_ffff {
            return Err(
                refuse(
                    ErrorCategory::StorageFailure,
                    "out of range integral type conversion attempted",
                ),
            );
        }
        if size > 65_536 {
            return Err(refuse(ErrorCategory::InvalidInput, "Host event exceeds 65,536 bytes"));
        }
        let i = match self.live_session_position(actor.session) {
            None => {
                return Err(refuse_missing_row());
            },
            Some(i) => i,
        };
        let s = self.sessions[i];
        if sequence <= s.event_sequence {
            let faithful = match self.host_event_content(actor.session, sequence) {
                Some(stored) => stored == content,
                None => false,
            };
            if faithful {
                return Ok(());
            }
            return Err(
                refuse(ErrorCategory::Conflict, "replayed Host event differs from durable event"),
            );
        }
        if sequence - 1 == s.event_sequence {
            self.host_events.push(HostEventRow { session: actor.session, sequence, content });
            self.sessions.set(i, SessionRow { event_sequence: sequence, last_seen: now, ..s });
            Ok(())
        } else {
            Err(refuse(ErrorCategory::Conflict, "Host event sequence has a gap"))
        }
    }
}

/// The log of a live Session holds no event beyond its sequence.
pub open spec fn log_in_step(m: Model, session: HarnessSessionId) -> bool {
    match first_where(m.sessions, is_live_session(session)) {
        None => true,
        Some(i) => forall|k: int|
            0 <= k < m.host_events.len() && (#[trigger] m.host_events[k]).session == session
                ==> m.host_events[k].sequence <= m.sessions[i].event_sequence,
    }
}

/// A recorded Host event moves the sequence of its Session by at most one and keeps the log in
/// step; replaying it changes nothing, and replaying it with other content is refused.
pub proof fn recorded_host_events_replay(
    m: Model,
    actor: AuthenticatedActor,
    sequence: u64,
    content: TextKey,
    other: TextKey,
    size: usize,
    now: u64,
    later: u64,
)
    requires
        host_event(m, actor, sequence, content, size, now) is Ok,
        other != content,
        log_in_step(m, actor.session),
    ensures
        ({
            let after = host_event(m, actor, sequence, content, size, now)->Ok_0;
            &&& log_in_step(after, actor.session)
            &&& host_event(after, actor, sequence, content, size, later) == Ok::<Model, Refusal>(
                after,
            )
            &&& host_event(after, actor, sequence, other, size, later) is Err
            &&& after.host_events.len() <= m.host_events.len() + 1
        }),
{
    let after = host_event(m, actor, sequence, content, size, now)->Ok_0;
    first_says(m.sessions, is_live_session(actor.session));
    let i = first_where(m.sessions, is_live_session(actor.session))->0;
    if sequence > m.sessions[i].event_sequence {
        assert forall|j: int| 0 <= j < i implies !is_live_session(actor.session)(
            #[trigger] after.sessions[j],
        ) by {
            assert(after.sessions[j] == m.sessions[j]);
        }
        first_found(after.sessions, is_live_session(actor.session), i);
        let last = after.host_events.len() - 1;
        assert forall|j: int| 0 <= j < last implies !is_host_event(actor.session, sequence)(
            #[trigger] after.host_events[j],
        ) by {
            assert(after.host_events[j] == m.host_events[j]);
        }
        first_found(after.host_events, is_host_event(actor.session, sequence), last);
    }
}

} // verus!

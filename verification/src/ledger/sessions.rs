//! Registration and lifecycle of Harness Sessions.
use vstd::prelude::*;

use crate::contract::{Activity, HarnessTier, NativeSessionHealth, Presence};
use crate::error::{refusal, refuse, CoordinatorError, ErrorCategory, Refusal};
use crate::identity::HarnessSessionId;
use crate::ledger::evidence::concludes;
use crate::ledger::steps::{plain, revision_overflow};
use crate::ledger::{is_harness, is_live_session_of, is_session, occupies, settles, Ledger, Model};
use crate::rows::{AuthenticatedActor, HarnessKey, HarnessRow, SessionRow, TextKey, WorktreeKey};
use crate::select::{
    count_step, count_where, first_found, first_missing, first_where, last_found, last_missing,
    last_where, some_where, update_where,
};
use crate::text::{blank, byte_count, byte_len, is_blank};

verus! {

// ---------------------------------------------------------------------------------------------
// Registration
// ---------------------------------------------------------------------------------------------

/// A Harness as it registers, under a new Session.
#[derive(Debug, Clone, Copy, PartialEq, Eq, Structural)]
pub struct NewHarness {
    pub key: HarnessKey,
    pub tier: HarnessTier,
    pub worktree: WorktreeKey,
    pub definition: TextKey,
    pub model: Option<TextKey>,
    pub session: HarnessSessionId,
    pub capability: TextKey,
    /// The source of the launch profile, for Workers.
    pub source: Option<TextKey>,
}

/// A Session at its start.
pub open spec fn fresh_session(
    id: HarnessSessionId,
    harness: HarnessKey,
    tier: HarnessTier,
    capability: TextKey,
    generation: u64,
    profile: Option<TextKey>,
    source: Option<TextKey>,
    now: u64,
) -> SessionRow {
    SessionRow {
        id,
        harness,
        tier,
        capability,
        generation,
        presence: match tier {
            HarnessTier::Supervisor => Presence::Online,
            HarnessTier::Worker => Presence::Starting,
        },
        activity: match tier {
            HarnessTier::Supervisor => Activity::Idle,
            HarnessTier::Worker => Activity::Starting,
        },
        ended: false,
        profile,
        source,
        model: None,
        tool_policy: None,
        health: NativeSessionHealth::Ambiguous,
        safe_compaction: false,
        compactions: None,
        context_tokens: None,
        context_window: None,
        context_percent: None,
        snapshot: None,
        event_sequence: 0,
        native_session: None,
        native_thread: None,
        executable: None,
        version: None,
        compatibility: None,
        last_seen: now,
    }
}

fn make_session(
    id: HarnessSessionId,
    harness: HarnessKey,
    tier: HarnessTier,
    capability: TextKey,
    generation: u64,
    profile: Option<TextKey>,
    source: Option<TextKey>,
    now: u64,
) -> (r: SessionRow)
    ensures
        r == fresh_session(id, harness, tier, capability, generation, profile, source, now),
{
    let (presence, activity) = match tier {
        HarnessTier::Supervisor => (Presence::Online, Activity::Idle),
        HarnessTier::Worker => (Presence::Starting, Activity::Starting),
    };
    SessionRow {
        id,
        harness,
        tier,
        capability,
        generation,
        presence,
        activity,
        ended: false,
        profile,
        source,
        model: None,
        tool_policy: None,
        health: NativeSessionHealth::Ambiguous,
        safe_compaction: false,
        compactions: None,
        context_tokens: None,
        context_window: None,
        context_percent: None,
        snapshot: None,
        event_sequence: 0,
        native_session: None,
        native_thread: None,
        executable: None,
        version: None,
        compatibility: None,
        last_seen: now,
    }
}

pub open spec fn identity_used() -> Refusal {
    refusal(ErrorCategory::StorageFailure, "identity is already in use"@)
}

/// A live Session of a registered Supervisor.
pub open spec fn is_live_supervisor(m: Model) -> spec_fn(SessionRow) -> bool {
    |s: SessionRow|
        !s.ended && (match first_where(m.harnesses, is_harness(s.harness)) {
            Some(h) => m.harnesses[h].tier == HarnessTier::Supervisor,
            None => false,
        })
}

pub open spec fn enlisted(m: Model, new: NewHarness) -> Model {
    Model {
        harnesses: m.harnesses.push(
            HarnessRow {
                key: new.key,
                tier: new.tier,
                worktree: new.worktree,
                definition: new.definition,
                model: new.model,
            },
        ),
        ..m
    }
}

/// Registration of the one Supervisor.
pub open spec fn register_supervisor(m: Model, new: NewHarness, now: u64) -> Result<Model, Refusal> {
    if new.tier != HarnessTier::Supervisor {
        Err(
            refusal(
                ErrorCategory::InvalidInput,
                "bootstrap registration requires Supervisor tier"@,
            ),
        )
    } else if some_where(m.sessions, is_live_supervisor(m)) {
        Err(refusal(ErrorCategory::Conflict, "an active Supervisor already exists"@))
    } else if first_where(m.harnesses, is_harness(new.key)) is Some {
        Err(refusal(ErrorCategory::Conflict, "Harness ID is already registered"@))
    } else if first_where(m.sessions, is_session(new.session)) is Some {
        Err(identity_used())
    } else {
        Ok(
            Model {
                sessions: m.sessions.push(
                    fresh_session(
                        new.session,
                        new.key,
                        HarnessTier::Supervisor,
                        new.capability,
                        1,
                        None,
                        None,
                        now,
                    ),
                ),
                ..enlisted(m, new)
            },
        )
    }
}

/// The start of a Worker: a registered Worker keeps its definition and has one live Session; a
/// start that is still under way with the same profile, and whose capability is `issued` and at
/// hand, is answered with the same Session.
pub open spec fn start_worker(
    m: Model,
    new: NewHarness,
    profile: TextKey,
    issued: bool,
    now: u64,
) -> Result<(Model, HarnessSessionId), Refusal> {
    let row = fresh_session(
        new.session,
        new.key,
        HarnessTier::Worker,
        new.capability,
        1,
        Some(profile),
        new.source,
        now,
    );
    if new.tier != HarnessTier::Worker {
        Err(refusal(ErrorCategory::InvalidInput, "Worker start requires Worker tier"@))
    } else {
        match first_where(m.harnesses, is_harness(new.key)) {
            None => if first_where(m.sessions, is_session(new.session)) is Some {
                Err(identity_used())
            } else {
                Ok((Model { sessions: m.sessions.push(row), ..enlisted(m, new) }, new.session))
            },
            Some(h) => if m.harnesses[h].definition != new.definition {
                Err(
                    refusal(
                        ErrorCategory::Conflict,
                        "Harness ID is already bound to another definition"@,
                    ),
                )
            } else {
                match last_where(m.sessions, is_live_session_of(new.key)) {
                    Some(i) => if m.sessions[i].presence == Presence::Starting
                        && m.sessions[i].profile == Some(profile) && issued {
                        Ok((m, m.sessions[i].id))
                    } else {
                        Err(
                            refusal(
                                ErrorCategory::Conflict,
                                "Worker already has an active Session"@,
                            ),
                        )
                    },
                    None => if first_where(m.sessions, is_session(new.session)) is Some {
                        Err(identity_used())
                    } else {
                        Ok((Model { sessions: m.sessions.push(row), ..m }, new.session))
                    },
                }
            },
        }
    }
}

impl Ledger {
    fn has_live_supervisor(&self) -> (r: bool)
        ensures
            r == some_where(self@.sessions, is_live_supervisor(self@)),
    {
        let mut i: usize = 0;
        while i < self.sessions.len()
            invariant
                i <= self.sessions.len(),
                forall|j: int|
                    0 <= j < i ==> !is_live_supervisor(self@)(#[trigger] self.sessions@[j]),
            decreases self.sessions.len() - i,
        {
            let s = self.sessions[i];
            if !s.ended {
                let supervises = match self.harness(s.harness) {
                    Some(h) => h.tier == HarnessTier::Supervisor,
                    None => false,
                };
                if supervises {
                    assert(is_live_supervisor(self@)(self@.sessions[i as int]));
                    return true;
                }
            }
            i += 1;
        }
        false
    }

    fn enlist(&mut self, new: NewHarness)
        ensures
            final(self)@ == enlisted(old(self)@, new),
    {
        self.harnesses.push(
            HarnessRow {
                key: new.key,
                tier: new.tier,
                worktree: new.worktree,
                definition: new.definition,
                model: new.model,
            },
        );
    }

    /// Registers the Supervisor.
    pub fn register_supervisor(&mut self, new: NewHarness, now: u64) -> (r: Result<
        (),
        CoordinatorError,
    >)
        ensures
            settles(r, old(self)@, final(self)@, plain(register_supervisor(old(self)@, new, now))),
    {
        if new.tier != HarnessTier::Supervisor {
            return Err(
                refuse(
                    ErrorCategory::InvalidInput,
                    "bootstrap registration requires Supervisor tier",
                ),
            );
        }
        if self.has_live_supervisor() {
            return Err(refuse(ErrorCategory::Conflict, "an active Supervisor already exists"));
        }
        if self.harness(new.key).is_some() {
            return Err(refuse(ErrorCategory::Conflict, "Harness ID is already registered"));
        }
        if self.has_session(new.session) {
            return Err(refuse(ErrorCategory::StorageFailure, "identity is already in use"));
        }
        self.enlist(new);
        self.sessions.push(
            make_session(
                new.session,
                new.key,
                HarnessTier::Supervisor,
                new.capability,
                1,
                None,
                None,
                now,
            ),
        );
        Ok(())
    }

    fn latest_session_position(&self, harness: HarnessKey) -> (r: Option<usize>)
        ensures
            match r {
                Some(i) => last_where(self@.sessions, is_live_session_of(harness)) == Some(
                    i as int,
                ) && i < self.sessions.len(),
                None => last_where(self@.sessions, is_live_session_of(harness)) is None,
            },
    {
        let mut i: usize = self.sessions.len();
        while i > 0
            invariant
                i <= self.sessions.len(),
                forall|j: int|
                    i <= j < self.sessions.len() ==> !is_live_session_of(harness)(
                        #[trigger] self.sessions@[j],
                    ),
            decreases i,
        {
            i -= 1;
            if self.sessions[i].harness == harness && !self.sessions[i].ended {
                proof {
                    last_found(self@.sessions, is_live_session_of(harness), i as int);
                }
                return Some(i);
            }
        }
        proof {
            last_missing(self@.sessions, is_live_session_of(harness));
        }
        None
    }

    /// Starts a Worker; gives its Session.
    pub fn start_worker(&mut self, new: NewHarness, profile: TextKey, issued: bool, now: u64) -> (r:
        Result<HarnessSessionId, CoordinatorError>)
        ensures
            settles(
                r,
                old(self)@,
                final(self)@,
                start_worker(old(self)@, new, profile, issued, now),
            ),
    {
        if new.tier != HarnessTier::Worker {
            return Err(refuse(ErrorCategory::InvalidInput, "Worker start requires Worker tier"));
        }
        let known = self.harness(new.key);
        if let Some(h) = known {
            if h.definition != new.definition {
                return Err(
                    refuse(
                        ErrorCategory::Conflict,
                        "Harness ID is already bound to another definition",
                    ),
                );
            }
            if let Some(i) = self.latest_session_position(new.key) {
                let s = self.sessions[i];
                let same_profile = match s.profile {
                    Some(p) => p == profile,
                    None => false,
                };
                if s.presence == Presence::Starting && same_profile && issued {
                    return Ok(s.id);
                }
                return Err(refuse(ErrorCategory::Conflict, "Worker already has an active Session"));
            }
        }
        if self.has_session(new.session) {
            return Err(refuse(ErrorCategory::StorageFailure, "identity is already in use"));
        }
        if known.is_none() {
            self.enlist(new);
        }
        self.sessions.push(
            make_session(
                new.session,
                new.key,
                HarnessTier::Worker,
                new.capability,
                1,
                Some(profile),
                new.source,
                now,
            ),
        );
        Ok(new.session)
    }
}

// ---------------------------------------------------------------------------------------------
// Aborted starts and rotation
// ---------------------------------------------------------------------------------------------

pub open spec fn is_starting_of(harness: HarnessKey) -> spec_fn(SessionRow) -> bool {
    |s: SessionRow| s.harness == harness && !s.ended && s.presence == Presence::Starting
}

pub open spec fn ended_as(s: SessionRow, presence: Presence, activity: Activity, now: u64) -> SessionRow {
    SessionRow { presence, activity, ended: true, last_seen: now, ..s }
}

/// A start that is given up: the Worker's starting Session ends as failed.
pub open spec fn abort_worker_start(
    m: Model,
    worker: HarnessKey,
    diagnostic: Seq<char>,
    now: u64,
) -> (Model, Result<(), Refusal>) {
    if blank(diagnostic) || byte_count(diagnostic) > 4096 {
        (
            m,
            Err(
                refusal(
                    ErrorCategory::InvalidInput,
                    "Worker start diagnostic must contain 1 to 4096 bytes"@,
                ),
            ),
        )
    } else {
        (
            Model {
                sessions: update_where(
                    m.sessions,
                    is_starting_of(worker),
                    |s: SessionRow| ended_as(s, Presence::Failed, Activity::Failed, now),
                ),
                ..m
            },
            if count_where(m.sessions, is_starting_of(worker)) == 1 {
                Ok(())
            } else {
                Err(refusal(ErrorCategory::InvalidState, "Worker has no starting Session"@))
            },
        )
    }
}

pub open spec fn is_idle_online(id: HarnessSessionId) -> spec_fn(SessionRow) -> bool {
    |s: SessionRow|
        s.id == id && !s.ended && s.presence == Presence::Online && s.activity == Activity::Idle
}

/// A Worker Session replaced by a fresh one of the next generation.
pub open spec fn rotate_session(
    m: Model,
    actor: AuthenticatedActor,
    session: HarnessSessionId,
    capability: TextKey,
    now: u64,
) -> Result<Model, Refusal> {
    if actor.tier != HarnessTier::Worker {
        Err(refusal(ErrorCategory::Forbidden, "only a Worker Host may rotate its Session"@))
    } else if some_where(m.tasks, occupies(actor.id, None)) {
        Err(
            refusal(
                ErrorCategory::InvalidState,
                "Worker Session rotation requires no active Task"@,
            ),
        )
    } else {
        match first_where(m.sessions, is_idle_online(actor.session)) {
            None => Err(
                refusal(ErrorCategory::InvalidState, "Worker Session is not idle and online"@),
            ),
            Some(i) => {
                let s = m.sessions[i];
                if s.generation == u64::MAX {
                    Err(revision_overflow())
                } else if first_where(m.sessions, is_session(session)) is Some {
                    Err(identity_used())
                } else {
                    Ok(
                        Model {
                            sessions: m.sessions.update(
                                i,
                                ended_as(s, Presence::Stopped, Activity::Idle, now),
                            ).push(
                                fresh_session(
                                    session,
                                    actor.id,
                                    HarnessTier::Worker,
                                    capability,
                                    (s.generation + 1) as u64,
                                    s.profile,
                                    s.source,
                                    now,
                                ),
                            ),
                            ..m
                        },
                    )
                }
            },
        }
    }
}

impl Ledger {
    /// Gives up the start of a Worker.
    pub fn abort_worker_start(&mut self, worker: HarnessKey, diagnostic: &str, now: u64) -> (r:
        Result<(), CoordinatorError>)
        ensures
            concludes(r, final(self)@, abort_worker_start(old(self)@, worker, diagnostic@, now)),
    {
        if is_blank(diagnostic) || byte_len(diagnostic) > 4096 {
            return Err(
                refuse(
                    ErrorCategory::InvalidInput,
                    "Worker start diagnostic must contain 1 to 4096 bytes",
                ),
            );
        }
        let n = self.sessions.len();
        let mut changed: usize = 0;
        let mut i: usize = 0;
        while i < n
            invariant
                i <= n,
                changed <= i,
                n == self.sessions.len(),
                n == old(self).sessions.len(),
                changed == count_where(
                    old(self)@.sessions.take(i as int),
                    is_starting_of(worker),
                ),
                self@ == (Model { sessions: self.sessions@, ..old(self)@ }),
                forall|j: int|
                    0 <= j < i ==> #[trigger] self.sessions@[j] == (if is_starting_of(worker)(
                        old(self).sessions@[j],
                    ) {
                        ended_as(
                            old(self).sessions@[j],
                            Presence::Failed,
                            Activity::Failed,
                            now,
                        )
                    } else {
                        old(self).sessions@[j]
                    }),
                forall|j: int| i <= j < n ==> #[trigger] self.sessions@[j] == old(self).sessions@[j],
            decreases n - i,
        {
            proof {
                count_step(old(self)@.sessions, is_starting_of(worker), i as int);
            }
            let s = self.sessions[i];
            if s.harness == worker && !s.ended && s.presence == Presence::Starting {
                self.sessions.set(
                    i,
                    SessionRow {
                        presence: Presence::Failed,
                        activity: Activity::Failed,
                        ended: true,
                        last_seen: now,
                        ..s
                    },
                );
                changed += 1;
            }
            i += 1;
        }
        assert(old(self)@.sessions.take(i as int) =~= old(self)@.sessions);
        assert(self.sessions@ =~= update_where(
            old(self).sessions@,
            is_starting_of(worker),
            |s: SessionRow| ended_as(s, Presence::Failed, Activity::Failed, now),
        ));
        if changed == 1 {
            Ok(())
        } else {
            Err(refuse(ErrorCategory::InvalidState, "Worker has no starting Session"))
        }
    }

    fn idle_online_position(&self, id: HarnessSessionId) -> (r: Option<usize>)
        ensures
            match r {
                Some(i) => first_where(self@.sessions, is_idle_online(id)) == Some(i as int) && i
                    < self.sessions.len(),
                None => first_where(self@.sessions, is_idle_online(id)) is None,
            },
    {
        let mut i: usize = 0;
        while i < self.sessions.len()
            invariant
                i <= self.sessions.len(),
                forall|j: int| 0 <= j < i ==> !is_idle_online(id)(#[trigger] self.sessions@[j]),
            decreases self.sessions.len() - i,
        {
            let s = self.sessions[i];
            if s.id == id && !s.ended && s.presence == Presence::Online && s.activity
                == Activity::Idle {
                proof {
                    first_found(self@.sessions, is_idle_online(id), i as int);
                }
                return Some(i);
            }
            i += 1;
        }
        proof {
            first_missing(self@.sessions, is_idle_online(id));
        }
        None
    }

    /// Replaces the Session of an idle Worker by a fresh one.
    pub fn rotate_worker_session(
        &mut self,
        actor: AuthenticatedActor,
        session: HarnessSessionId,
        capability: TextKey,
        now: u64,
    ) -> (r: Result<(), CoordinatorError>)
        ensures
            settles(
                r,
                old(self)@,
                final(self)@,
                plain(rotate_session(old(self)@, actor, session, capability, now)),
            ),
    {
        if actor.tier != HarnessTier::Worker {
            return Err(
                refuse(ErrorCategory::Forbidden, "only a Worker Host may rotate its Session"),
            );
        }
        if self.is_occupied(actor.id, None) {
            return Err(
                refuse(
                    ErrorCategory::InvalidState,
                    "Worker Session rotation requires no active Task",
                ),
            );
        }
        let i = match self.idle_online_position(actor.session) {
            None => {
                return Err(
                    refuse(ErrorCategory::InvalidState, "Worker Session is not idle and online"),
                );
            },
            Some(i) => i,
        };
        let s = self.sessions[i];
        if s.generation == u64::MAX {
            return Err(
                refuse(
                    ErrorCategory::StorageFailure,
                    "out of range integral type conversion attempted",
                ),
            );
        }
        if self.has_session(session) {
            return Err(refuse(ErrorCategory::StorageFailure, "identity is already in use"));
        }
        self.sessions.set(
            i,
            SessionRow {
                presence: Presence::Stopped,
                activity: Activity::Idle,
                ended: true,
                last_seen: now,
                ..s
            },
        );
        self.sessions.push(
            make_session(
                session,
                actor.id,
                HarnessTier::Worker,
                capability,
                s.generation + 1,
                s.profile,
                s.source,
                now,
            ),
        );
        Ok(())
    }
}

} // verus!

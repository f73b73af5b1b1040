//! Choice of the native Session for a queued Task.
use vstd::prelude::*;

use crate::adapter::AdapterLifecycle;
use crate::contract::{
    Activity, NativeSessionHealth, Presence, SessionReusePolicy, TaskSchedulingState, TaskState,
};
use crate::error::{refusal, refuse, CoordinatorError, ErrorCategory, Refusal};
use crate::identity::{HarnessSessionId, TaskId};
use crate::ledger::steps::{must_be, refuse_state};
use crate::ledger::{
    active_state, find_task, is_active_state, is_live_session, is_task, latest_session, Ledger,
    Model,
};
use crate::rows::{AdapterRow, BindingReason, BindingRow, SessionRow, TaskRow, TextKey};
use crate::select::{
    first_found, first_missing, first_where, last_found, last_missing, last_where, some_where,
    update_where,
};
use crate::names::{named, NameTable};
use crate::text::{join3, optional_text};

verus! {

/// Facts about a Session that the reuse rules judge.
#[derive(Debug, Clone, Copy, PartialEq, Eq, Structural)]
pub struct SessionReuseCandidate {
    pub session_id: HarnessSessionId,
    pub same_worker: bool,
    pub same_harness_kind: bool,
    pub same_launch_profile: bool,
    pub same_repository: bool,
    pub same_tool_policy: bool,
    pub compatible_model: bool,
    pub has_active_task: bool,
    pub has_unresolved_question: bool,
    pub has_delivery_unknown: bool,
    pub has_unresolved_cancellation: bool,
    pub has_session_worktree_hold: bool,
    pub native_protocol_unambiguous: bool,
    pub previously_bound: bool,
    /// What the Adapter last said of the Session.
    pub adapter: AdapterRow,
}

/// What the reuse rules say of a candidate.
#[derive(Debug)]
pub struct SessionReuseDecision {
    pub reusable: bool,
    pub effective_policy: SessionReusePolicy,
    pub reason_code: String,
    pub reason: String,
    /// Numbers of the reason code and of the reason.
    pub code: TextKey,
    pub words: TextKey,
}

/// A candidate, and how it has to be judged.
#[derive(Debug, Clone, Copy, PartialEq, Eq, Structural)]
pub struct BindingQuestion {
    pub candidate: SessionReuseCandidate,
    /// The Task is bound to this Session already.
    pub existing: bool,
    /// Only compatibility counts: a bound Session, or a fresh one that never executed a Task.
    pub compatibility_only: bool,
    /// The policy to judge under.
    pub judged_as: SessionReusePolicy,
}

pub open spec fn is_current_binding(id: TaskId) -> spec_fn(BindingRow) -> bool {
    |b: BindingRow| b.task == id && !b.superseded
}

pub open spec fn is_binding_of(id: TaskId) -> spec_fn(BindingRow) -> bool {
    |b: BindingRow| b.task == id
}

pub open spec fn is_binding_to(session: HarnessSessionId) -> spec_fn(BindingRow) -> bool {
    |b: BindingRow| b.session == session
}

/// The Session that a Task is bound to.
pub open spec fn bound_session(m: Model, id: TaskId) -> Option<HarnessSessionId> {
    match first_where(m.bindings, is_current_binding(id)) {
        Some(i) => Some(m.bindings[i].session),
        None => None,
    }
}

/// The last Session that a related Task was bound to.
pub open spec fn related_session(m: Model, related: Option<TaskId>) -> Option<HarnessSessionId> {
    match related {
        None => None,
        Some(id) => match last_where(m.bindings, is_binding_of(id)) {
            Some(i) => Some(m.bindings[i].session),
            None => None,
        },
    }
}

/// The Session to consider: the bound one, else the preferred one, else that of the related Task
/// unless a fresh Session is wanted, else the Worker's newest live one.
pub open spec fn candidate_session(m: Model, t: TaskRow, policy: SessionReusePolicy) -> Option<
    HarnessSessionId,
> {
    if bound_session(m, t.id) is Some {
        bound_session(m, t.id)
    } else if t.preferred_session is Some {
        t.preferred_session
    } else if policy != SessionReusePolicy::Fresh && related_session(m, t.related) is Some {
        related_session(m, t.related)
    } else {
        latest_session(m, t.worker)
    }
}

/// Another Task that occupies a Session.
pub open spec fn occupies_session(session: HarnessSessionId, except: TaskId) -> spec_fn(
    TaskRow,
) -> bool {
    |t: TaskRow| t.active_session == Some(session) && t.id != except && active_state(t.state)
}

/// A Task of a Session in one state.
pub open spec fn in_session(session: HarnessSessionId, state: TaskState) -> spec_fn(
    TaskRow,
) -> bool {
    |t: TaskRow| t.active_session == Some(session) && t.state == state
}

/// An active Hold of a Task of a Session.
pub open spec fn session_holds(m: Model, session: HarnessSessionId, h: int, t: int) -> bool {
    &&& 0 <= h < m.holds.len()
    &&& 0 <= t < m.tasks.len()
    &&& !m.holds[h].cleared
    &&& m.tasks[t].id == m.holds[h].task
    &&& m.tasks[t].active_session == Some(session)
}

/// The tool policy of a Session, which defaults to its launch profile.
pub open spec fn tool_policy(s: SessionRow) -> Option<TextKey> {
    if s.tool_policy is Some {
        s.tool_policy
    } else {
        s.profile
    }
}

/// The recorded snapshot of a Session's Adapter; where there is none, what the Session itself
/// shows.
pub open spec fn last_said(s: SessionRow) -> AdapterRow {
    match s.snapshot {
        Some(snapshot) => snapshot,
        None => AdapterRow {
            lifecycle: if s.presence == Presence::Online && s.activity == Activity::Idle {
                AdapterLifecycle::Idle
            } else if s.presence == Presence::Online {
                AdapterLifecycle::Working
            } else {
                AdapterLifecycle::Failed
            },
            session: None,
            thread: None,
            active_turn: None,
            steerable: false,
            queued_inputs: None,
            model: s.model,
            health: s.health,
            context_tokens: s.context_tokens,
            context_window: s.context_window,
            context_percent: s.context_percent,
            compactions: s.compactions,
        },
    }
}

fn read_adapter(s: SessionRow) -> (r: AdapterRow)
    ensures
        r == last_said(s),
{
    match s.snapshot {
        Some(snapshot) => snapshot,
        None => AdapterRow {
            lifecycle: if s.presence == Presence::Online && s.activity == Activity::Idle {
                AdapterLifecycle::Idle
            } else if s.presence == Presence::Online {
                AdapterLifecycle::Working
            } else {
                AdapterLifecycle::Failed
            },
            session: None,
            thread: None,
            active_turn: None,
            steerable: false,
            queued_inputs: None,
            model: s.model,
            health: s.health,
            context_tokens: s.context_tokens,
            context_window: s.context_window,
            context_percent: s.context_percent,
            compactions: s.compactions,
        },
    }
}

/// The facts about a Session.
pub open spec fn facts(m: Model, t: TaskRow, s: SessionRow) -> SessionReuseCandidate {
    SessionReuseCandidate {
        session_id: s.id,
        same_worker: s.harness == t.worker,
        same_harness_kind: true,
        same_launch_profile: t.expected_profile == s.profile,
        same_repository: true,
        same_tool_policy: t.expected_tool_policy == tool_policy(s),
        compatible_model: t.expected_model == s.model,
        has_active_task: some_where(m.tasks, occupies_session(s.id, t.id)),
        has_unresolved_question: some_where(m.tasks, in_session(s.id, TaskState::Waiting)),
        has_delivery_unknown: some_where(m.tasks, in_session(s.id, TaskState::DeliveryUnknown)),
        has_unresolved_cancellation: some_where(m.tasks, in_session(s.id, TaskState::Cancelling)),
        has_session_worktree_hold: exists|h: int, k: int| session_holds(m, s.id, h, k),
        native_protocol_unambiguous: s.health != NativeSessionHealth::Ambiguous,
        previously_bound: some_where(m.bindings, is_binding_to(s.id)),
        adapter: last_said(s),
    }
}

/// The Session to judge for a queued Task under its effective policy, or why there is none.
pub open spec fn binding_question(m: Model, id: TaskId, policy: SessionReusePolicy) -> Result<
    BindingQuestion,
    Refusal,
> {
    match find_task(m, id) {
        None => Err(refusal(ErrorCategory::NotFound, "Task does not exist"@)),
        Some(t) => if t.state != TaskState::Queued {
            Err(must_be(TaskState::Queued))
        } else if t.scheduling != TaskSchedulingState::Ready {
            Err(refusal(ErrorCategory::InvalidState, "Task dependencies are not satisfied"@))
        } else {
            match candidate_session(m, t, policy) {
                None => Err(
                    refusal(ErrorCategory::TargetOffline, "assigned Worker has no Session"@),
                ),
                Some(session) => match first_where(m.sessions, is_live_session(session)) {
                    None => Err(
                        refusal(ErrorCategory::InvalidState, "required Session is unavailable"@),
                    ),
                    Some(i) => {
                        let candidate = facts(m, t, m.sessions[i]);
                        let existing = bound_session(m, id) is Some;
                        let compatibility_only = existing || policy == SessionReusePolicy::Fresh
                            && !candidate.previously_bound;
                        Ok(
                            BindingQuestion {
                                candidate,
                                existing,
                                compatibility_only,
                                judged_as: if compatibility_only {
                                    SessionReusePolicy::Prefer
                                } else {
                                    t.policy
                                },
                            },
                        )
                    },
                },
            }
        },
    }
}

impl Ledger {
    /// The Session that a Task is bound to.
    pub fn bound_session(&self, id: TaskId) -> (r: Option<HarnessSessionId>)
        ensures
            r == bound_session(self@, id),
    {
        let mut i: usize = 0;
        while i < self.bindings.len()
            invariant
                i <= self.bindings.len(),
                forall|j: int|
                    0 <= j < i ==> !is_current_binding(id)(#[trigger] self.bindings@[j]),
            decreases self.bindings.len() - i,
        {
            if self.bindings[i].task == id && !self.bindings[i].superseded {
                proof {
                    first_found(self@.bindings, is_current_binding(id), i as int);
                }
                return Some(self.bindings[i].session);
            }
            i += 1;
        }
        proof {
            first_missing(self@.bindings, is_current_binding(id));
        }
        None
    }

    fn related_session(&self, related: Option<TaskId>) -> (r: Option<HarnessSessionId>)
        ensures
            r == related_session(self@, related),
    {
        let id = match related {
            None => {
                return None;
            },
            Some(id) => id,
        };
        let mut i: usize = self.bindings.len();
        while i > 0
            invariant
                i <= self.bindings.len(),
                related == Some(id),
                forall|j: int|
                    i <= j < self.bindings.len() ==> !is_binding_of(id)(
                        #[trigger] self.bindings@[j],
                    ),
            decreases i,
        {
            i -= 1;
            if self.bindings[i].task == id {
                proof {
                    last_found(self@.bindings, is_binding_of(id), i as int);
                }
                return Some(self.bindings[i].session);
            }
        }
        proof {
            last_missing(self@.bindings, is_binding_of(id));
        }
        None
    }

    fn is_previously_bound(&self, session: HarnessSessionId) -> (r: bool)
        ensures
            r == some_where(self@.bindings, is_binding_to(session)),
    {
        let mut i: usize = 0;
        while i < self.bindings.len()
            invariant
                i <= self.bindings.len(),
                forall|j: int|
                    0 <= j < i ==> !is_binding_to(session)(#[trigger] self.bindings@[j]),
            decreases self.bindings.len() - i,
        {
            if self.bindings[i].session == session {
                assert(is_binding_to(session)(self@.bindings[i as int]));
                return true;
            }
            i += 1;
        }
        false
    }

    fn is_session_occupied(&self, session: HarnessSessionId, except: TaskId) -> (r: bool)
        ensures
            r == some_where(self@.tasks, occupies_session(session, except)),
    {
        let mut i: usize = 0;
        while i < self.tasks.len()
            invariant
                i <= self.tasks.len(),
                forall|j: int|
                    0 <= j < i ==> !occupies_session(session, except)(#[trigger] self.tasks@[j]),
            decreases self.tasks.len() - i,
        {
            let t = self.tasks[i];
            let here = match t.active_session {
                Some(s) => s == session,
                None => false,
            };
            if here && t.id != except && is_active_state(t.state) {
                assert(occupies_session(session, except)(self@.tasks[i as int]));
                return true;
            }
            i += 1;
        }
        false
    }

    fn has_in_session(&self, session: HarnessSessionId, state: TaskState) -> (r: bool)
        ensures
            r == some_where(self@.tasks, in_session(session, state)),
    {
        let mut i: usize = 0;
        while i < self.tasks.len()
            invariant
                i <= self.tasks.len(),
                forall|j: int|
                    0 <= j < i ==> !in_session(session, state)(#[trigger] self.tasks@[j]),
            decreases self.tasks.len() - i,
        {
            let t = self.tasks[i];
            let here = match t.active_session {
                Some(s) => s == session,
                None => false,
            };
            if here && t.state == state {
                assert(in_session(session, state)(self@.tasks[i as int]));
                return true;
            }
            i += 1;
        }
        false
    }

    fn has_session_hold(&self, session: HarnessSessionId) -> (r: bool)
        ensures
            r == (exists|h: int, t: int| session_holds(self@, session, h, t)),
    {
        let mut h: usize = 0;
        while h < self.holds.len()
            invariant
                h <= self.holds.len(),
                forall|x: int, t: int| x < h ==> !session_holds(self@, session, x, t),
            decreases self.holds.len() - h,
        {
            if !self.holds[h].cleared {
                let mut t: usize = 0;
                while t < self.tasks.len()
                    invariant
                        t <= self.tasks.len(),
                        h < self.holds.len(),
                        !self.holds@[h as int].cleared,
                        forall|y: int| y < t ==> !session_holds(self@, session, h as int, y),
                    decreases self.tasks.len() - t,
                {
                    let here = match self.tasks[t].active_session {
                        Some(s) => s == session,
                        None => false,
                    };
                    if here && self.tasks[t].id == self.holds[h].task {
                        assert(session_holds(self@, session, h as int, t as int));
                        return true;
                    }
                    t += 1;
                }
            }
            h += 1;
        }
        false
    }

    fn same_key(a: Option<TextKey>, b: Option<TextKey>) -> (r: bool)
        ensures
            r == (a == b),
    {
        match (a, b) {
            (None, None) => true,
            (Some(x), Some(y)) => x == y,
            _ => false,
        }
    }

    fn facts(&self, t: TaskRow, s: SessionRow) -> (r: SessionReuseCandidate)
        ensures
            r == facts(self@, t, s),
    {
        let tools = match s.tool_policy {
            Some(k) => Some(k),
            None => s.profile,
        };
        SessionReuseCandidate {
            session_id: s.id,
            same_worker: s.harness == t.worker,
            same_harness_kind: true,
            same_launch_profile: Ledger::same_key(t.expected_profile, s.profile),
            same_repository: true,
            same_tool_policy: Ledger::same_key(t.expected_tool_policy, tools),
            compatible_model: Ledger::same_key(t.expected_model, s.model),
            has_active_task: self.is_session_occupied(s.id, t.id),
            has_unresolved_question: self.has_in_session(s.id, TaskState::Waiting),
            has_delivery_unknown: self.has_in_session(s.id, TaskState::DeliveryUnknown),
            has_unresolved_cancellation: self.has_in_session(s.id, TaskState::Cancelling),
            has_session_worktree_hold: self.has_session_hold(s.id),
            native_protocol_unambiguous: s.health != NativeSessionHealth::Ambiguous,
            previously_bound: self.is_previously_bound(s.id),
            adapter: read_adapter(s),
        }
    }

    /// The Session to judge for a queued Task.
    pub fn binding_question(&self, id: TaskId, policy: SessionReusePolicy) -> (r: Result<
        BindingQuestion,
        CoordinatorError,
    >)
        ensures
            crate::error::outcome(r) == binding_question(self@, id, policy),
    {
        let t = match self.task(id) {
            None => {
                return Err(refuse(ErrorCategory::NotFound, "Task does not exist"));
            },
            Some(t) => t,
        };
        proof {
            crate::select::first_says(self@.tasks, is_task(id));
        }
        if t.state != TaskState::Queued {
            return Err(refuse_state(TaskState::Queued));
        }
        if t.scheduling != TaskSchedulingState::Ready {
            return Err(
                refuse(ErrorCategory::InvalidState, "Task dependencies are not satisfied"),
            );
        }
        let existing = self.bound_session(id);
        let chosen = if existing.is_some() {
            existing
        } else if t.preferred_session.is_some() {
            t.preferred_session
        } else {
            let related = self.related_session(t.related);
            if policy != SessionReusePolicy::Fresh && related.is_some() {
                related
            } else {
                self.latest_session(t.worker)
            }
        };
        let session = match chosen {
            None => {
                return Err(
                    refuse(ErrorCategory::TargetOffline, "assigned Worker has no Session"),
                );
            },
            Some(session) => session,
        };
        match self.live_session_position(session) {
            None => Err(refuse(ErrorCategory::InvalidState, "required Session is unavailable")),
            Some(i) => {
                let candidate = self.facts(t, self.sessions[i]);
                let compatibility_only = existing.is_some() || policy == SessionReusePolicy::Fresh
                    && !candidate.previously_bound;
                Ok(
                    BindingQuestion {
                        candidate,
                        existing: existing.is_some(),
                        compatibility_only,
                        judged_as: if compatibility_only {
                            SessionReusePolicy::Prefer
                        } else {
                            t.policy
                        },
                    },
                )
            },
        }
    }
}

// ---------------------------------------------------------------------------------------------
// The verdict
// ---------------------------------------------------------------------------------------------

pub open spec fn supersede(b: BindingRow) -> BindingRow {
    BindingRow { superseded: true, ..b }
}

/// The refusal of a Session that cannot be used. A never-used Session will not become compatible
/// by rotating the same profile, so it is an invalid state rather than an offline target.
pub open spec fn selection_refusal(
    requested: SessionReusePolicy,
    q: BindingQuestion,
    reason: Seq<char>,
    code: Seq<char>,
) -> Refusal {
    refusal(
        if requested == SessionReusePolicy::Required || !q.candidate.previously_bound {
            ErrorCategory::InvalidState
        } else {
            ErrorCategory::TargetOffline
        },
        "Session selection blocked: "@ + reason + " ("@ + code + ")"@,
    )
}

/// The tables after the verdict on a candidate.
pub open spec fn bound(
    m: Model,
    id: TaskId,
    requested: SessionReusePolicy,
    policy: SessionReusePolicy,
    q: BindingQuestion,
    reusable: bool,
    judged: SessionReusePolicy,
    code: TextKey,
    words: TextKey,
) -> Model {
    if !reusable {
        if q.existing && requested != SessionReusePolicy::Required {
            Model {
                bindings: update_where(
                    m.bindings,
                    is_current_binding(id),
                    |b: BindingRow| supersede(b),
                ),
                ..m
            }
        } else {
            m
        }
    } else if q.existing {
        m
    } else {
        Model {
            bindings: m.bindings.push(
                BindingRow {
                    task: id,
                    session: q.candidate.session_id,
                    requested,
                    effective: if q.compatibility_only {
                        policy
                    } else {
                        judged
                    },
                    reused: q.candidate.previously_bound,
                    reason: if q.compatibility_only {
                        BindingReason::FreshUnbound
                    } else {
                        BindingReason::Evaluated { code, reason: words }
                    },
                    adapter: q.candidate.adapter,
                    superseded: false,
                },
            ),
            ..m
        }
    }
}

impl Ledger {
    fn supersede_bindings(&mut self, id: TaskId)
        ensures
            final(self)@ == (Model {
                bindings: update_where(
                    old(self)@.bindings,
                    is_current_binding(id),
                    |b: BindingRow| supersede(b),
                ),
                ..old(self)@
            }),
    {
        let n = self.bindings.len();
        let mut i: usize = 0;
        while i < n
            invariant
                i <= n,
                n == self.bindings.len(),
                n == old(self).bindings.len(),
                self@ == (Model { bindings: self.bindings@, ..old(self)@ }),
                forall|j: int|
                    0 <= j < i ==> #[trigger] self.bindings@[j] == (if is_current_binding(id)(
                        old(self).bindings@[j],
                    ) {
                        supersede(old(self).bindings@[j])
                    } else {
                        old(self).bindings@[j]
                    }),
                forall|j: int| i <= j < n ==> #[trigger] self.bindings@[j] == old(self).bindings@[j],
            decreases n - i,
        {
            let b = self.bindings[i];
            if b.task == id && !b.superseded {
                self.bindings.set(i, BindingRow { superseded: true, ..b });
            }
            i += 1;
        }
        assert(self.bindings@ =~= update_where(
            old(self).bindings@,
            is_current_binding(id),
            |b: BindingRow| supersede(b),
        ));
    }

    /// Applies the verdict of the reuse rules on a candidate: binds the Task, keeps its binding,
    /// or supersedes a binding that is no longer usable. `policy` is the effective policy.
    pub fn settle_task_session_binding(
        &mut self,
        id: TaskId,
        requested: SessionReusePolicy,
        policy: SessionReusePolicy,
        q: BindingQuestion,
        decision: &SessionReuseDecision,
    ) -> (r: Result<HarnessSessionId, CoordinatorError>)
        ensures
            final(self)@ == bound(
                old(self)@,
                id,
                requested,
                policy,
                q,
                decision.reusable,
                decision.effective_policy,
                decision.code,
                decision.words,
            ),
            crate::error::outcome(r) == (if decision.reusable {
                Ok(q.candidate.session_id)
            } else {
                Err(
                    selection_refusal(requested, q, decision.reason@, decision.reason_code@),
                )
            }),
    {
        if !decision.reusable {
            if q.existing && requested != SessionReusePolicy::Required {
                self.supersede_bindings(id);
            }
            let category = if requested == SessionReusePolicy::Required
                || !q.candidate.previously_bound {
                ErrorCategory::InvalidState
            } else {
                ErrorCategory::TargetOffline
            };
            let head = join3("Session selection blocked: ", decision.reason.as_str(), " (");
            let message = join3(head.as_str(), decision.reason_code.as_str(), ")");
            return Err(CoordinatorError::new(category, message));
        }
        if !q.existing {
            self.bindings.push(
                BindingRow {
                    task: id,
                    session: q.candidate.session_id,
                    requested,
                    effective: if q.compatibility_only {
                        policy
                    } else {
                        decision.effective_policy
                    },
                    reused: q.candidate.previously_bound,
                    reason: if q.compatibility_only {
                        BindingReason::FreshUnbound
                    } else {
                        BindingReason::Evaluated { code: decision.code, reason: decision.words }
                    },
                    adapter: q.candidate.adapter,
                    superseded: false,
                },
            );
        }
        Ok(q.candidate.session_id)
    }
}

/// The code of the reason for which a Session was chosen; none where a number names nothing.
pub open spec fn binding_code(names: Seq<Seq<char>>, reason: BindingReason) -> Option<Seq<char>> {
    match reason {
        BindingReason::FreshUnbound => Some("fresh_unbound_session"@),
        BindingReason::Evaluated { code, .. } => named(names, code),
    }
}

/// The reason for which a Session was chosen, in words.
pub open spec fn binding_words(names: Seq<Seq<char>>, reason: BindingReason) -> Option<Seq<char>> {
    match reason {
        BindingReason::FreshUnbound => Some(
            "fresh compatible native Session has not executed another Task"@,
        ),
        BindingReason::Evaluated { reason, .. } => named(names, reason),
    }
}

/// Writes the code of the reason for which a Session was chosen.
pub fn binding_reason_code(names: &NameTable, reason: BindingReason) -> (r: Option<String>)
    ensures
        optional_text(r) == binding_code(names@, reason),
{
    match reason {
        BindingReason::FreshUnbound => Some("fresh_unbound_session".to_owned()),
        BindingReason::Evaluated { code, .. } => match names.name(code) {
            Some(text) => Some(text.to_owned()),
            None => None,
        },
    }
}

/// Writes the reason for which a Session was chosen.
pub fn binding_reason(names: &NameTable, reason: BindingReason) -> (r: Option<String>)
    ensures
        optional_text(r) == binding_words(names@, reason),
{
    match reason {
        BindingReason::FreshUnbound => Some(
            "fresh compatible native Session has not executed another Task".to_owned(),
        ),
        BindingReason::Evaluated { reason, .. } => match names.name(reason) {
            Some(text) => Some(text.to_owned()),
            None => None,
        },
    }
}

} // verus!

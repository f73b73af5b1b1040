//! Projections that the Coordinator gives to its callers.
use vstd::prelude::*;

use crate::contract::{
    DeliveryIntent, DependencyCondition, DependencyFailurePolicy, HarnessTier, SessionReusePolicy,
    SupervisorEventDeliveryState, SupervisorEventKind, TaskRole, TaskSchedulingState, TaskState,
};
use crate::identity::{
    AttachmentId, HarnessId, HarnessSessionId, MessageId, SupervisorEventId, TaskId,
    WorktreeHoldId,
};
use crate::ledger::queries::DependencyResultRef;
use crate::select::{count_step, count_where, first_found, first_missing, first_where, some_where};
use crate::text::same_text;

verus! {

/// Read-only Task projection.
#[derive(Debug)]
pub struct TaskView {
    /// Task identity.
    pub id: TaskId,
    /// Assigned Worker.
    pub worker_id: HarnessId,
    /// Current durable lifecycle state.
    pub state: TaskState,
    /// Current Result revision.
    pub result_revision: u32,
    pub task_role: TaskRole,
    pub requested_session_policy: SessionReusePolicy,
    pub effective_session_policy: Option<SessionReusePolicy>,
    pub harness_session_id: Option<HarnessSessionId>,
    pub session_reused: Option<bool>,
    pub session_decision_reason: Option<String>,
    pub context_percent: Option<String>,
}

/// One persisted dependency edge in a Task graph projection.
#[derive(Debug, Clone, Copy, PartialEq, Eq, Structural)]
pub struct TaskDependencyView {
    pub task_id: TaskId,
    pub condition: DependencyCondition,
    pub failure_policy: DependencyFailurePolicy,
    pub satisfied_by_result_revision: Option<u32>,
}

/// Scheduling projection used by the Supervisor and popup.
#[derive(Debug)]
pub struct TaskGraphView {
    pub task: TaskView,
    pub scheduling_state: TaskSchedulingState,
    pub dependencies: Vec<TaskDependencyView>,
    pub dependents: Vec<TaskId>,
    pub worker_queue_position: Option<u32>,
    pub waiting_for_worker: bool,
    pub waiting_for_session: bool,
    pub waiting_for_repository: bool,
}

/// Attachment-only resolved input; Result bodies are never inlined into Task text.
#[derive(Debug)]
pub struct ResolvedTaskInputView {
    pub explicit_attachments: Vec<AttachmentId>,
    pub dependency_results: Vec<DependencyResultRef>,
}

/// Compact durable Harness and live Session projection.
#[derive(Debug)]
pub struct HarnessStatusView {
    /// Durable Harness identity.
    pub id: HarnessId,
    /// Supervisor or Worker.
    pub tier: HarnessTier,
    /// Latest Session presence, or `offline` when no live Session exists.
    pub presence: String,
    /// Latest Session activity.
    pub activity: String,
    /// Unread durable Message count.
    pub unread_messages: u32,
    /// Current active Task, when one exists.
    pub active_task_id: Option<TaskId>,
}

/// Durable inbox Message projection.
#[derive(Debug)]
pub struct InboxMessageView {
    /// Message identity.
    pub id: MessageId,
    /// Related Task, when present.
    pub task_id: Option<TaskId>,
    /// Authenticated sender identity.
    pub sender_id: HarnessId,
    /// Public or reserved Message kind.
    pub kind: String,
    /// Original versioned Message in JSON.
    pub body: String,
    /// Latest native delivery state, when delivery applies.
    pub delivery_state: Option<String>,
}

/// Durable event delivery projection used by the Supervisor Host and popup.
#[derive(Debug)]
pub struct SupervisorEventView {
    pub id: SupervisorEventId,
    pub kind: SupervisorEventKind,
    pub task_id: Option<TaskId>,
    pub result_revision: Option<u32>,
    pub source_message_id: Option<MessageId>,
    pub summary: String,
    pub attachments: Vec<AttachmentId>,
    pub delivery_intent: DeliveryIntent,
    pub state: SupervisorEventDeliveryState,
    pub created_at: String,
}

/// Unresolved advisory Worktree Hold projection.
#[derive(Debug)]
pub struct HoldView {
    /// Hold identity.
    pub id: WorktreeHoldId,
    /// Canonical repository scheduling key.
    pub repository_key: String,
    /// Task responsible for the Hold.
    pub task_id: TaskId,
    /// Stable reason.
    pub reason: String,
}

/// Session-bound launch context returned only to its capability holder.
#[derive(Debug)]
pub struct SessionSelfView {
    /// Live Coordinator Session identity.
    pub session_id: HarnessSessionId,
    /// Previously bound native OMP Session identity, when present.
    pub native_session_id: Option<String>,
    /// Previously bound native Codex thread identity, when present.
    pub native_thread_id: Option<String>,
    /// Durable Harness definition in JSON.
    pub definition: String,
    /// Exact selected launch profile source for Workers.
    pub profile_snapshot: Option<String>,
    /// SHA-256 of the selected profile source.
    pub profile_digest: Option<String>,
    /// Current Coordinator presence projection.
    pub presence: String,
    /// Current Coordinator activity projection.
    pub activity: String,
    /// Latest durable pane-resident Host event sequence.
    pub event_sequence: u64,
}

// ---------------------------------------------------------------------------------------------
// Readiness of Workers
// ---------------------------------------------------------------------------------------------

/// The status of a Worker with a name that is online and not about to stop.
pub open spec fn is_ready_worker(name: Seq<char>) -> spec_fn(HarnessStatusView) -> bool {
    |s: HarnessStatusView|
        s.id@ == name && s.tier == HarnessTier::Worker && s.presence@ == "online"@ && s.activity@
            != "stopping"@
}

/// Every selected Worker is online and stays; others do not count.
pub open spec fn workers_ready(status: Seq<HarnessStatusView>, selected: Seq<HarnessId>) -> bool {
    forall|i: int|
        0 <= i < selected.len() ==> some_where(status, is_ready_worker((#[trigger] selected[i])@))
}

fn is_worker_ready(status: &Vec<HarnessStatusView>, name: &str) -> (r: bool)
    ensures
        r == some_where(status@, is_ready_worker(name@)),
{
    let mut i: usize = 0;
    while i < status.len()
        invariant
            i <= status.len(),
            forall|j: int| 0 <= j < i ==> !is_ready_worker(name@)(#[trigger] status@[j]),
        decreases status.len() - i,
    {
        let s = &status[i];
        if same_text(s.id.as_str(), name) && s.tier == HarnessTier::Worker && same_text(
            s.presence.as_str(),
            "online",
        ) && !same_text(s.activity.as_str(), "stopping") {
            assert(is_ready_worker(name@)(status@[i as int]));
            return true;
        }
        i += 1;
    }
    false
}

/// Whether every selected Worker is online and stays.
pub fn selected_workers_are_online(
    status: &Vec<HarnessStatusView>,
    selected_workers: &Vec<HarnessId>,
) -> (r: bool)
    ensures
        r == workers_ready(status@, selected_workers@),
{
    let mut i: usize = 0;
    while i < selected_workers.len()
        invariant
            i <= selected_workers.len(),
            forall|j: int|
                0 <= j < i ==> some_where(
                    status@,
                    is_ready_worker((#[trigger] selected_workers@[j])@),
                ),
        decreases selected_workers.len() - i,
    {
        if !is_worker_ready(status, selected_workers[i].as_str()) {
            return false;
        }
        i += 1;
    }
    true
}

pub open spec fn is_online_worker() -> spec_fn(HarnessStatusView) -> bool {
    |s: HarnessStatusView| s.tier == HarnessTier::Worker && s.presence@ == "online"@
}

pub open spec fn is_unstopped_worker() -> spec_fn(HarnessStatusView) -> bool {
    |s: HarnessStatusView| s.tier == HarnessTier::Worker && s.presence@ != "stopped"@
}

/// Whether exactly so many Workers are online, and no other is left unstopped.
pub fn workers_settled(status: &Vec<HarnessStatusView>, expected_online: usize) -> (r: bool)
    ensures
        r == (count_where(status@, is_online_worker()) == expected_online && count_where(
            status@,
            is_unstopped_worker(),
        ) == expected_online),
{
    let mut live: usize = 0;
    let mut active: usize = 0;
    let mut i: usize = 0;
    while i < status.len()
        invariant
            i <= status.len(),
            live <= i,
            active <= i,
            live == count_where(status@.take(i as int), is_online_worker()),
            active == count_where(status@.take(i as int), is_unstopped_worker()),
        decreases status.len() - i,
    {
        proof {
            count_step(status@, is_online_worker(), i as int);
            count_step(status@, is_unstopped_worker(), i as int);
        }
        let s = &status[i];
        if s.tier == HarnessTier::Worker {
            if same_text(s.presence.as_str(), "online") {
                live += 1;
            }
            if !same_text(s.presence.as_str(), "stopped") {
                active += 1;
            }
        }
        i += 1;
    }
    assert(status@.take(i as int) =~= status@);
    live == expected_online && active == expected_online
}

/// Whether a deactivation has to stop a Harness.
pub fn needs_stop(status: &HarnessStatusView) -> (r: bool)
    ensures
        r == is_unstopped_worker()(*status),
{
    status.tier == HarnessTier::Worker && !same_text(status.presence.as_str(), "stopped")
}

/// The first Worker that is online.
pub fn first_online_worker(status: &Vec<HarnessStatusView>) -> (r: Option<usize>)
    ensures
        match r {
            Some(i) => first_where(status@, is_online_worker()) == Some(i as int) && i
                < status.len(),
            None => first_where(status@, is_online_worker()) is None,
        },
{
    let mut i: usize = 0;
    while i < status.len()
        invariant
            i <= status.len(),
            forall|j: int| 0 <= j < i ==> !is_online_worker()(#[trigger] status@[j]),
        decreases status.len() - i,
    {
        if status[i].tier == HarnessTier::Worker && same_text(
            status[i].presence.as_str(),
            "online",
        ) {
            proof {
                first_found(status@, is_online_worker(), i as int);
            }
            return Some(i);
        }
        i += 1;
    }
    proof {
        first_missing(status@, is_online_worker());
    }
    None
}

} // verus!

//! Every command keeps the Supervisor's attention in order: one event in flight at most, one event
//! for each origin, and nothing comes back that was settled.
use vstd::prelude::*;

use crate::contract::{
    DeliveryIntent, DependencyCondition, HarnessTier, MessageKind, ObservationCheckpoint,
    SupervisorEventKind, TaskState,
};
use crate::error::{outcome, Refusal};
use crate::identity::{AttachmentId, HarnessSessionId, MessageId, SupervisorEventId, TaskId};
use crate::ledger::accounts::{
    accountable, accounts, grounded, growth_keeps_accounts, kept_messages_stay_known, knows,
    rooted,
};
use crate::ledger::attention::{
    acknowledge, acknowledge_upto, reconcile_event, roots_of, SupervisorEventResolution,
};
use crate::ledger::cascade::{
    cascade, cascade_run, void_all, void_edges, void_edges_shrinks, work_left,
};
use crate::ledger::connections::{
    claim_stale, evidence_for, lost_host, message_under_way, outcomes, reap, reap_all, reap_upto,
    settle_lost_host, stale,
};
use crate::ledger::create::{create_task, DeclaredDependency, KeyedRequest, NewTask};
use crate::ledger::dispatch::{
    blocked_words, claim_next, commit_dispatch, dispatch_task, next_claim, optional_refusal,
    DispatchView,
};
use crate::ledger::event_laws::{
    claims_are_exclusive_and_in_order, closed, one_in_flight, origins_differ,
};
use crate::ledger::events::{
    accept_event, claim_event, doubt_unsettled, in_flight, is_pending, mark_event_unknown,
    note_timeouts_frame, release_event, Acceptance,
};
use crate::ledger::evidence::{
    announce_hold, answerable, digested, fail_for_missing_evidence, hold_repository,
    observe_repository, out_of_scope, record_checkpoint, NewObservation,
};
use crate::ledger::execute::{
    authorize, execute, perform, perform_bootstrap, Caller, CoordinatorCommand,
};
use crate::ledger::hosts::{drop_connection, given, or_else};
use crate::ledger::messages::{
    accept_delivery, complete_task, heed, posted, put_waiting, resume, send_message, NewMessage,
    NewResult,
};
use crate::ledger::propagation::{revoke, satisfy_downstream};
use crate::ledger::queries::{addressed, mark_read_upto};
use crate::ledger::reconcile::{
    clear_worktree_hold, doubted, mark_delivery_unknown, resolve_delivery_unknown,
    DeliveryUnknownResolution,
};
use crate::ledger::settlement::{
    approve_task, cancel_task, hold_for_turn, record_cancellation_completed, record_turn_completed,
    report_result, result_of_turn, settle_cancellation, settle_turn, terminal, turn_hold,
};
use crate::ledger::shutdown::{
    active_task, fail_with_host, guard_lost_work, host_failed, host_stopped, is_stoppable_of,
    settle_host_failure, stop_worker,
};
use crate::ledger::steps::{add_hold, process_event, process_events_upto, push_hold, transition};
use crate::ledger::{
    complete_watches_upto, find_task, held, insert_event, is_attempt_of, is_event, is_event_from,
    is_message, is_task, record_transition, Model,
};
use crate::rows::{
    AttemptRow, AttemptState, AuthenticatedActor, ConnectionRow, EventOrigin, EventRow, HarnessKey,
    HoldReason, ResultRow, TaskRow, TextKey, TransitionReason, TransitionRow, WatchRow, Wording,
};
use crate::select::{begins, first_says, first_where, last_where, some_where, update_where};

verus! {

// ---------------------------------------------------------------------------------------------
// Steps
// ---------------------------------------------------------------------------------------------

broadcast use kept_messages_stay_known;

/// The same event, which says the same, whatever became of its delivery.
pub open spec fn same_event(a: EventRow, b: EventRow) -> bool {
    b == (EventRow { state: b.state, ..a })
}

/// Events stay in their places and say what they said, none goes out, none that was settled comes
/// back, new ones wait at the end, none is made twice for one origin, and nothing refers to a
/// Message that does not exist.
#[verifier::opaque]
pub open spec fn calm(a: Model, b: Model) -> bool {
    &&& a.events.len() <= b.events.len()
    &&& forall|i: int|
        0 <= i < a.events.len() ==> same_event(a.events[i], #[trigger] b.events[i]) && (in_flight(
            b.events[i],
        ) ==> in_flight(a.events[i])) && (closed(a.events[i]) ==> closed(b.events[i]))
    &&& forall|i: int| a.events.len() <= i < b.events.len() ==> !in_flight(#[trigger] b.events[i])
    &&& origins_differ(a) ==> origins_differ(b)
    &&& begins(a.messages, b.messages)
    &&& accountable(a) ==> accountable(b)
}

proof fn calm_passes_on(a: Model, b: Model, c: Model)
    requires
        calm(a, b),
        calm(b, c),
    ensures
        calm(a, c),
{
    reveal(calm);
    assert forall|i: int| a.events.len() <= i < c.events.len() implies !in_flight(
        #[trigger] c.events[i],
    ) by {
        if i < b.events.len() {
            assert(!in_flight(b.events[i]));
        }
    }
    assert forall|i: int| 0 <= i < a.events.len() implies same_event(
        a.events[i],
        #[trigger] c.events[i],
    ) && (in_flight(c.events[i]) ==> in_flight(a.events[i])) && (closed(a.events[i]) ==> closed(
        c.events[i],
    )) by {
        assert(same_event(a.events[i], b.events[i]));
    }
}

proof fn nothing_done_is_calm(m: Model)
    ensures
        calm(m, m),
{
    reveal(calm);
}

proof fn calm_keeps_one_in_flight(a: Model, b: Model)
    requires
        one_in_flight(a),
        calm(a, b),
    ensures
        one_in_flight(b),
{
    reveal(calm);
    assert forall|i: int, j: int|
        0 <= i < b.events.len() && 0 <= j < b.events.len() && in_flight(#[trigger] b.events[i])
            && in_flight(#[trigger] b.events[j]) implies i == j by {
        assert(in_flight(a.events[i]) && in_flight(a.events[j]));
    }
}

proof fn inserting_is_calm(
    m: Model,
    kind: SupervisorEventKind,
    task: Option<TaskId>,
    revision: Option<u32>,
    message: Option<MessageId>,
    origin: EventOrigin,
    intent: DeliveryIntent,
    summary: Option<Wording>,
)
    requires
        message is Some ==> knows(m.messages, message->0),
        origin matches EventOrigin::Question { message: asked } ==> message == Some(asked),
    ensures
        calm(m, insert_event(m, kind, task, revision, message, origin, intent, summary)),
{
    reveal(calm);
    reveal(accounts);
    let after = insert_event(m, kind, task, revision, message, origin, intent, summary);
    if !some_where(m.events, is_event_from(origin)) {
        assert forall|i: int, j: int| origins_differ(m) && 0 <= i < j < after.events.len() implies (
        #[trigger] after.events[i]).origin != (#[trigger] after.events[j]).origin by {
            assert(!is_event_from(origin)(m.events[i]));
            if j < m.events.len() {
                assert(after.events[j] == m.events[j]);
            }
        }
    }
}

proof fn announcing_is_calm(m: Model, task: TaskId, origin: EventOrigin)
    requires
        !(origin is Question),
    ensures
        calm(m, announce_hold(m, task, origin)),
{
    reveal(calm);
    inserting_is_calm(
        m,
        SupervisorEventKind::WorktreeHoldCreated,
        Some(task),
        None,
        None,
        origin,
        DeliveryIntent::FollowUp,
        None,
    );
}

proof fn processing_is_calm(
    m: Model,
    kind: SupervisorEventKind,
    task: TaskId,
    revision: Option<u32>,
    n: nat,
)
    requires
        n <= m.events.len(),
    ensures
        calm(m, process_events_upto(m, kind, task, revision, n)),
        process_events_upto(m, kind, task, revision, n).events.len() == m.events.len(),
    decreases n,
{
    reveal(calm);
    reveal(accounts);
    if n > 0 {
        processing_is_calm(m, kind, task, revision, (n - 1) as nat);
        let before = process_events_upto(m, kind, task, revision, (n - 1) as nat);
        let after = process_event(before, kind, task, revision, n - 1);
        assert(calm(before, after));
        calm_passes_on(m, before, after);
    }
}

proof fn watching_is_calm(m: Model, n: nat)
    ensures
        calm(m, complete_watches_upto(m, n)),
    decreases n,
{
    reveal(calm);
    if n > 0 {
        watching_is_calm(m, (n - 1) as nat);
        let before = complete_watches_upto(m, (n - 1) as nat);
        let watch = before.watches[n - 1];
        let closed = Model {
            watches: before.watches.update(n - 1, WatchRow { completed: true, ..watch }),
            ..before
        };
        inserting_is_calm(
            closed,
            SupervisorEventKind::TaskGraphCompleted,
            None,
            None,
            None,
            EventOrigin::GraphCompleted { watch: watch.id },
            DeliveryIntent::FollowUp,
            None,
        );
        assert(calm(before, complete_watches_upto(m, n)));
        calm_passes_on(m, before, complete_watches_upto(m, n));
    }
}

proof fn recording_is_calm(
    m: Model,
    task: TaskId,
    from: TaskState,
    to: TaskState,
    reason: TransitionReason,
)
    ensures
        calm(m, record_transition(m, task, from, to, reason)),
{
    reveal(calm);
    let logged = Model {
        transitions: m.transitions.push(TransitionRow { task, from: Some(from), to, reason }),
        ..m
    };
    let noticed = if to == TaskState::Failed {
        insert_event(
            logged,
            SupervisorEventKind::TaskFailed,
            Some(task),
            None,
            None,
            EventOrigin::TaskFailed { task },
            DeliveryIntent::FollowUp,
            None,
        )
    } else {
        logged
    };
    inserting_is_calm(
        logged,
        SupervisorEventKind::TaskFailed,
        Some(task),
        None,
        None,
        EventOrigin::TaskFailed { task },
        DeliveryIntent::FollowUp,
        None,
    );
    assert(calm(m, noticed));
    watching_is_calm(noticed, noticed.watches.len());
    calm_passes_on(m, noticed, record_transition(m, task, from, to, reason));
}

proof fn transition_is_calm(m: Model, id: TaskId, from: TaskState, to: TaskState, bump: bool)
    ensures
        match transition(m, id, from, to, bump) {
            Ok(next) => calm(m, next),
            Err(_) => true,
        },
{
    reveal(calm);
    if let Some(i) = first_where(m.tasks, is_task(id)) {
        let t = m.tasks[i];
        let row = TaskRow {
            state: to,
            revision: if bump {
                (t.revision + 1) as u32
            } else {
                t.revision
            },
            ..t
        };
        let set = Model { tasks: m.tasks.update(i, row), ..m };
        recording_is_calm(set, id, from, to, TransitionReason::Plain);
        let next = record_transition(set, id, from, to, TransitionReason::Plain);
        assert(calm(m, set));
        calm_passes_on(m, set, next);
    }
}

proof fn voiding_keeps_events(m: Model, q: Seq<TaskId>, u: TaskId, n: nat)
    requires
        n <= m.dependencies.len(),
    ensures
        ({
            let after = void_edges(m, q, u, n).0;
            after == (Model {
                events: m.events,
                messages: m.messages,
                reads: m.reads,
                attached: m.attached,
                ..after
            })
        }),
    decreases n,
{
    reveal(calm);
    if n > 0 {
        voiding_keeps_events(m, q, u, (n - 1) as nat);
    }
}

proof fn running_keeps_events(m: Model, q: Seq<TaskId>)
    ensures
        ({
            let after = cascade_run(m, q);
            after == (Model {
                events: m.events,
                messages: m.messages,
                reads: m.reads,
                attached: m.attached,
                ..after
            })
        }),
    decreases work_left(m, q),
{
    reveal(calm);
    if q.len() > 0 {
        void_edges_shrinks(m, q.drop_first(), q[0], m.dependencies.len());
        voiding_keeps_events(m, q.drop_first(), q[0], m.dependencies.len());
        let (next, waiting) = void_all(m, q.drop_first(), q[0]);
        running_keeps_events(next, waiting);
    }
}

proof fn cascading_is_calm(m: Model, failed: TaskId)
    ensures
        calm(m, cascade(m, failed)),
{
    reveal(calm);
    running_keeps_events(m, seq![failed]);
    let run = cascade_run(m, seq![failed]);
    watching_is_calm(run, run.watches.len());
    assert(calm(m, run));
    calm_passes_on(m, run, cascade(m, failed));
}

proof fn doubting_unsettled_is_calm(m: Model, why: Wording)
    ensures
        calm(m, doubt_unsettled(m, why)),
{
    reveal(calm);
    reveal(accounts);
    note_timeouts_frame(m, m.event_attempts.len(), why);
    let b = doubt_unsettled(m, why);
    assert forall|i: int, j: int| origins_differ(m) && 0 <= i < j < b.events.len() implies (
    #[trigger] b.events[i]).origin != (#[trigger] b.events[j]).origin by {
        assert(m.events[i].origin != m.events[j].origin);
    }
}

// ---------------------------------------------------------------------------------------------
// Commands on Tasks
// ---------------------------------------------------------------------------------------------

proof fn missing_evidence_is_calm(m: Model, task: TaskId, expected: Seq<TaskState>)
    ensures
        match fail_for_missing_evidence(m, task, expected) {
            Ok(next) => calm(m, next),
            Err(_) => true,
        },
{
    reveal(calm);
    if let Ok(b) = fail_for_missing_evidence(m, task, expected) {
        let i = first_where(m.tasks, is_task(task))->0;
        let t = m.tasks[i];
        let set = Model {
            tasks: m.tasks.update(i, TaskRow { state: TaskState::Failed, ..t }),
            ..m
        };
        let reason = TransitionReason::MissingEvidence;
        recording_is_calm(set, task, t.state, TaskState::Failed, reason);
        let moved = record_transition(set, task, t.state, TaskState::Failed, reason);
        assert(calm(m, moved));
        cascading_is_calm(moved, task);
        let failed = cascade(moved, task);
        calm_passes_on(m, moved, failed);
        let why = HoldReason::RepositoryObservationFailed;
        let stopped = add_hold(failed, t.worktree, task, why);
        announcing_is_calm(stopped, task, EventOrigin::Hold { task, reason: why });
        assert(calm(failed, b));
        calm_passes_on(m, failed, b);
    }
}

proof fn turn_hold_is_calm(m: Model, t: TaskRow, next: TaskState, drifted: bool)
    ensures
        calm(m, hold_for_turn(m, t, next, drifted)),
{
    reveal(calm);
    if let Some(owner) = turn_hold(t, next, drifted) {
        let reason = if drifted {
            HoldReason::OutOfScopeMutation
        } else {
            HoldReason::NativeTurnFailed
        };
        announcing_is_calm(
            add_hold(m, t.worktree, owner, reason),
            owner,
            EventOrigin::TurnSettlementHold { task: owner },
        );
    }
}

proof fn reporting_is_calm(
    m: Model,
    actor: AuthenticatedActor,
    t: TaskRow,
    message: MessageId,
    result: ResultRow,
)
    ensures
        calm(m, report_result(m, actor, t, message, result)),
{
    reveal(calm);
    let b = report_result(m, actor, t, message, result);
    let posted = Model { events: m.events, ..b };
    assert(posted.messages[m.messages.len() as int].id == message);
    assert(knows(posted.messages, message));
    growth_keeps_accounts(m, posted);
    assert(calm(m, posted));
    inserting_is_calm(
        posted,
        SupervisorEventKind::ResultReady,
        Some(t.id),
        Some(t.revision),
        Some(message),
        EventOrigin::Result { task: t.id, revision: t.revision },
        DeliveryIntent::FollowUp,
        Some(Wording::Given { text: result.summary }),
    );
    assert(b.events == insert_event(
        posted,
        SupervisorEventKind::ResultReady,
        Some(t.id),
        Some(t.revision),
        Some(message),
        EventOrigin::Result { task: t.id, revision: t.revision },
        DeliveryIntent::FollowUp,
        Some(Wording::Given { text: result.summary }),
    ).events);
    calm_passes_on(m, posted, b);
}

proof fn turn_is_calm(
    m: Model,
    actor: AuthenticatedActor,
    task: TaskId,
    turn: TextKey,
    succeeded: bool,
    message: MessageId,
)
    ensures
        match settle_turn(m, actor, task, turn, succeeded, message) {
            Ok((next, _)) => calm(m, next),
            Err(_) => true,
        },
{
    reveal(calm);
    if let Ok((b, next)) = settle_turn(m, actor, task, turn, succeeded, message) {
        first_says(m.tasks, is_task(task));
        let t = find_task(m, task)->0;
        let drifted = succeeded && out_of_scope(m, task, ObservationCheckpoint::Result)->Ok_0;
        if next == TaskState::Reviewing {
            let sealed = Model {
                results: update_where(
                    m.results,
                    crate::ledger::dependencies::is_result(t.id, t.revision),
                    |x: ResultRow| terminal(x),
                ),
                ..m
            };
            settled_transition_is_calm(sealed, t.id, t.state, TaskState::Reviewing);
            let moved = transition(sealed, t.id, t.state, TaskState::Reviewing, false)->Ok_0;
            turn_hold_is_calm(moved, t, TaskState::Reviewing, drifted);
            let stopped = hold_for_turn(moved, t, TaskState::Reviewing, drifted);
            calm_passes_on(sealed, moved, stopped);
            let offered = if drifted {
                stopped
            } else {
                satisfy_downstream(stopped, t.id, DependencyCondition::ResultReady, t.revision)
            };
            assert(offered.events == stopped.events);
            reporting_is_calm(offered, actor, t, message, result_of_turn(m, t, turn)->0);
            assert(calm(m, offered));
            calm_passes_on(m, offered, b);
        } else {
            settled_transition_is_calm(m, t.id, t.state, TaskState::Failed);
            let moved = transition(m, t.id, t.state, TaskState::Failed, false)->Ok_0;
            cascading_is_calm(moved, t.id);
            let stopped = cascade(moved, t.id);
            turn_hold_is_calm(stopped, t, TaskState::Failed, drifted);
            calm_passes_on(m, moved, stopped);
            calm_passes_on(m, stopped, b);
        }
    }
}

/// The transition of a Task that is found in a state.
proof fn settled_transition_is_calm(m: Model, id: TaskId, from: TaskState, to: TaskState)
    requires
        find_task(m, id) is Some,
        find_task(m, id)->0.state == from,
    ensures
        transition(m, id, from, to, false) is Ok,
        calm(m, transition(m, id, from, to, false)->Ok_0),
{
    reveal(calm);
    transition_is_calm(m, id, from, to, false);
}

proof fn completed_turns_are_calm(
    m: Model,
    actor: AuthenticatedActor,
    task: TaskId,
    turn: TextKey,
    succeeded: bool,
    captured: Result<NewObservation, Refusal>,
    message: MessageId,
)
    ensures
        calm(
            m,
            record_turn_completed(m, actor, task, turn, succeeded, captured, message).0,
        ),
{
    reveal(calm);
    let checkpoint = if succeeded {
        ObservationCheckpoint::Result
    } else {
        ObservationCheckpoint::Failure
    };
    missing_evidence_is_calm(m, task, seq![TaskState::Working, TaskState::Waiting]);
    if let Ok(seen) = record_checkpoint(m, task, checkpoint, captured) {
        turn_is_calm(seen, actor, task, turn, succeeded, message);
    }
}

proof fn cancelling_is_calm(m: Model, task: TaskId)
    ensures
        match cancel_task(m, task) {
            Ok((next, _)) => calm(m, next),
            Err(_) => true,
        },
{
    reveal(calm);
    if let Ok((b, next)) = cancel_task(m, task) {
        let t = find_task(m, task)->0;
        first_says(m.tasks, is_task(task));
        settled_transition_is_calm(m, task, t.state, next);
        let moved = transition(m, task, t.state, next, false)->Ok_0;
        cascading_is_calm(moved, task);
        calm_passes_on(m, moved, cascade(moved, task));
    }
}

proof fn cancellations_are_calm(
    m: Model,
    actor: AuthenticatedActor,
    task: TaskId,
    succeeded: bool,
    captured: Result<NewObservation, Refusal>,
)
    ensures
        calm(m, record_cancellation_completed(m, actor, task, succeeded, captured).0),
{
    reveal(calm);
    let checkpoint = if succeeded {
        ObservationCheckpoint::Cancel
    } else {
        ObservationCheckpoint::Failure
    };
    missing_evidence_is_calm(m, task, seq![TaskState::Cancelling]);
    if let Ok(seen) = record_checkpoint(m, task, checkpoint, captured) {
        if let Ok((b, next)) = settle_cancellation(seen, task, succeeded) {
            let t = find_task(seen, task)->0;
            first_says(seen.tasks, is_task(task));
            settled_transition_is_calm(seen, task, TaskState::Cancelling, next);
            let moved = transition(seen, task, TaskState::Cancelling, next, false)->Ok_0;
            cascading_is_calm(moved, task);
            let stopped = cascade(moved, task);
            calm_passes_on(seen, moved, stopped);
            let reason = if succeeded {
                HoldReason::CancelledAfterDispatch
            } else {
                HoldReason::CancellationFailed
            };
            let held = push_hold(stopped, t.worktree, task, reason);
            announcing_is_calm(held, task, EventOrigin::Hold { task, reason });
            assert(calm(stopped, b));
            calm_passes_on(seen, stopped, b);
        }
    }
}

proof fn holding_is_calm(m: Model, task: TaskId, reason: HoldReason)
    ensures
        match hold_repository(m, task, reason) {
            Ok(next) => calm(m, next),
            Err(_) => true,
        },
{
    reveal(calm);
    if let Ok(b) = hold_repository(m, task, reason) {
        let t = find_task(m, task)->0;
        let owner = answerable(t)->0;
        let added = add_hold(m, t.worktree, owner, reason);
        announcing_is_calm(added, owner, EventOrigin::Hold { task: owner, reason });
        let stopped = if held(m, t.worktree) {
            m
        } else {
            announce_hold(added, owner, EventOrigin::Hold { task: owner, reason })
        };
        assert(calm(m, stopped));
        assert(revoke(stopped, task).events == stopped.events);
    }
}

proof fn observing_is_calm(
    m: Model,
    actor: AuthenticatedActor,
    task: TaskId,
    checkpoint: ObservationCheckpoint,
    captured: Result<NewObservation, Refusal>,
)
    ensures
        calm(m, observe_repository(m, actor, task, checkpoint, captured).0),
{
    reveal(calm);
    holding_is_calm(m, task, HoldReason::RepositoryCheckpointFailed);
}

proof fn approving_is_calm(
    m: Model,
    task: TaskId,
    revision: u32,
    digest: Seq<char>,
    key: TextKey,
    drift: Option<Refusal>,
)
    ensures
        calm(m, approve_task(m, task, revision, digest, key, drift).0),
{
    reveal(calm);
    holding_is_calm(m, task, HoldReason::OutOfScopeApprovalDrift);
    let (b, r) = approve_task(m, task, revision, digest, key, drift);
    if r is Ok {
        let i = first_where(m.tasks, is_task(task))->0;
        let row = TaskRow {
            state: TaskState::Approved,
            approved_revision: Some(revision),
            approval: digested(m, task, ObservationCheckpoint::Approval, key),
            ..m.tasks[i]
        };
        let set = Model { tasks: m.tasks.update(i, row), ..m };
        let (from, to) = (TaskState::Reviewing, TaskState::Approved);
        recording_is_calm(set, task, from, to, TransitionReason::Plain);
        let moved = record_transition(set, task, from, to, TransitionReason::Plain);
        let offered = satisfy_downstream(moved, task, DependencyCondition::Approved, revision);
        assert(offered.events == moved.events);
        let kind = SupervisorEventKind::ResultReady;
        processing_is_calm(offered, kind, task, Some(revision), offered.events.len());
        assert(calm(m, offered));
        calm_passes_on(
            m,
            offered,
            process_events_upto(offered, kind, task, Some(revision), offered.events.len()),
        );
    }
}

proof fn sending_is_calm(
    m: Model,
    actor: AuthenticatedActor,
    q: KeyedRequest,
    new: NewMessage,
    attachments: Seq<AttachmentId>,
)
    ensures
        match send_message(m, actor, q, new, attachments) {
            Ok((next, _)) => calm(m, next),
            Err(_) => true,
        },
{
    reveal(calm);
    reveal(accounts);
    if let Ok((b, _)) = send_message(m, actor, q, new, attachments) {
        if b != m {
            let sent = posted(m, actor, new);
            assert(sent.messages[m.messages.len() as int].id == new.id);
            assert(knows(sent.messages, new.id));
            growth_keeps_accounts(m, sent);
            assert(calm(m, sent));
            let heeded = heed(sent, new);
            match (new.kind, new.task) {
                (MessageKind::Question, Some(id)) => {
                    let i = first_where(m.tasks, is_task(id))->0;
                    let row = TaskRow { state: TaskState::Waiting, ..sent.tasks[i] };
                    let set = Model { tasks: sent.tasks.update(i, row), ..sent };
                    recording_is_calm(
                        set,
                        id,
                        TaskState::Working,
                        TaskState::Waiting,
                        TransitionReason::Plain,
                    );
                    let waiting = put_waiting(sent, id);
                    assert(calm(sent, waiting));
                    inserting_is_calm(
                        waiting,
                        SupervisorEventKind::BlockingQuestion,
                        Some(id),
                        None,
                        Some(new.id),
                        EventOrigin::Question { message: new.id },
                        new.delivery,
                        Some(Wording::Given { text: new.text }),
                    );
                    calm_passes_on(sent, waiting, heeded);
                },
                (MessageKind::Reply, Some(id)) => {
                    processing_is_calm(
                        sent,
                        SupervisorEventKind::BlockingQuestion,
                        id,
                        None,
                        sent.events.len(),
                    );
                },
                (MessageKind::Correction, Some(id)) => {
                    processing_is_calm(
                        sent,
                        SupervisorEventKind::ResultReady,
                        id,
                        None,
                        sent.events.len(),
                    );
                },
                _ => {},
            }
            assert(calm(sent, heeded));
            assert(begins(sent.messages, heeded.messages));
            assert(knows(heeded.messages, new.id));
            assert(calm(heeded, b)) by {
                assert(b.messages == heeded.messages);
                assert forall|i: int| accountable(heeded) && 0 <= i < b.attached.len() implies rooted(
                    b.messages,
                    #[trigger] b.attached[i],
                ) by {
                    if i < heeded.attached.len() {
                        assert(b.attached[i] == heeded.attached[i]);
                    }
                }
            }
            calm_passes_on(m, sent, heeded);
            calm_passes_on(m, heeded, b);
        }
    }
}

proof fn accepting_is_calm(
    m: Model,
    actor: AuthenticatedActor,
    id: MessageId,
    correlation: Seq<char>,
    key: TextKey,
)
    ensures
        match accept_delivery(m, actor, id, correlation, key) {
            Ok(next) => calm(m, next),
            Err(_) => true,
        },
{
    reveal(calm);
    if let Ok(b) = accept_delivery(m, actor, id, correlation, key) {
        let k = last_where(m.attempts, is_attempt_of(id))->0;
        let accepted = AttemptRow {
            state: AttemptState::Accepted,
            wrote: true,
            correlation: Some(key),
            ..m.attempts[k]
        };
        let seen = Model { attempts: m.attempts.update(k, accepted), ..m };
        let message = m.messages[first_where(m.messages, is_message(id))->0];
        assert(resume(seen, message) == Ok::<Model, Refusal>(b));
        if let Some(task) = message.task {
            let (working, reviewing) = (TaskState::Working, TaskState::Reviewing);
            transition_is_calm(seen, task, TaskState::Dispatching, working, false);
            transition_is_calm(seen, task, TaskState::Waiting, working, false);
            transition_is_calm(seen, task, reviewing, working, true);
            let moved = transition(seen, task, reviewing, working, true)->Ok_0;
            assert(revoke(moved, task).events == moved.events);
        }
    }
}

proof fn doubting_is_calm(
    m: Model,
    actor: AuthenticatedActor,
    id: MessageId,
    diagnostic: Seq<char>,
    why: Wording,
)
    ensures
        match mark_delivery_unknown(m, actor, id, diagnostic, why) {
            Ok((next, _)) => calm(m, next),
            Err(_) => true,
        },
{
    reveal(calm);
    if let Ok((b, task)) = mark_delivery_unknown(m, actor, id, diagnostic, why) {
        let t = find_task(m, task)->0;
        let (from, to) = (TaskState::Dispatching, TaskState::DeliveryUnknown);
        first_says(m.tasks, is_task(task));
        let marked = doubted(m, id, why);
        settled_transition_is_calm(marked, task, from, to);
        let moved = transition(marked, task, from, to, false)->Ok_0;
        assert(calm(m, moved));
        let kind = SupervisorEventKind::DeliveryUnknown;
        let origin = EventOrigin::Delivery { message: id };
        let intent = DeliveryIntent::FollowUp;
        let said = Some(why);
        first_says(m.messages, is_message(id));
        assert(knows(m.messages, id));
        assert(begins(m.messages, moved.messages));
        inserting_is_calm(moved, kind, Some(task), None, Some(id), origin, intent, said);
        let noticed = insert_event(moved, kind, Some(task), None, Some(id), origin, intent, said);
        calm_passes_on(m, moved, noticed);
        let reason = HoldReason::DeliveryUnknown;
        let held = push_hold(noticed, t.worktree, task, reason);
        announcing_is_calm(held, task, EventOrigin::Hold { task, reason });
        assert(calm(noticed, b));
        calm_passes_on(m, noticed, b);
    }
}

proof fn resolving_is_calm(
    m: Model,
    task: TaskId,
    resolution: DeliveryUnknownResolution,
    digest: Seq<char>,
    key: TextKey,
    note: Seq<char>,
    note_key: TextKey,
    drift: Option<Refusal>,
)
    ensures
        match resolve_delivery_unknown(m, task, resolution, digest, key, note, note_key, drift) {
            Ok((next, _)) => calm(m, next),
            Err(_) => true,
        },
{
    reveal(calm);
    let settled = resolve_delivery_unknown(m, task, resolution, digest, key, note, note_key, drift);
    if let Ok((b, next)) = settled {
        first_says(m.tasks, is_task(task));
        settled_transition_is_calm(m, task, TaskState::DeliveryUnknown, next);
        let moved = transition(m, task, TaskState::DeliveryUnknown, next, false)->Ok_0;
        cascading_is_calm(moved, task);
        calm_passes_on(m, moved, cascade(moved, task));
    }
}

proof fn clearing_is_calm(
    m: Model,
    task: TaskId,
    digest: Seq<char>,
    key: TextKey,
    note: Seq<char>,
    note_key: TextKey,
    drift: Option<Refusal>,
)
    ensures
        match clear_worktree_hold(m, task, digest, key, note, note_key, drift) {
            Ok(next) => calm(m, next),
            Err(_) => true,
        },
{
    reveal(calm);
}

proof fn dispatching_is_calm(m: Model, id: TaskId, f: DispatchView)
    ensures
        calm(m, dispatch_task(m, id, f).0),
{
    reveal(calm);
    crate::ledger::dispatch_laws::refused_dispatches_leave_tasks_alone(m, id, f);
    let (b, r) = dispatch_task(m, id, f);
    if r is Ok {
        let seen = crate::ledger::dispatch_laws::prepared(m, id, f);
        assert(seen.events == m.events);
        committing_is_calm(seen, id, f.lock);
    } else {
        assert(b.events == m.events);
    }
}

proof fn committing_is_calm(m: Model, id: TaskId, lock: Option<Refusal>)
    ensures
        match commit_dispatch(m, id, lock) {
            Ok((next, _)) => calm(m, next),
            Err(_) => true,
        },
{
    reveal(calm);
    if let Ok((b, message)) = commit_dispatch(m, id, lock) {
        let i = first_where(m.tasks, is_task(id))->0;
        let t = m.tasks[i];
        let taken = if crate::ledger::dispatch::needs_lease(m, t) {
            crate::ledger::dispatch::take_lease(m, t.worktree, t.id)
        } else {
            m
        };
        first_says(m.tasks, is_task(id));
        let s = m.bindings[first_where(
            m.bindings,
            crate::ledger::dispatch::is_usable_binding(m, id, t.worker),
        )->0].session;
        let row = TaskRow { state: TaskState::Dispatching, active_session: Some(s), ..t };
        let set = Model {
            dependencies: update_where(
                m.dependencies,
                crate::ledger::dispatch::is_dependency_of(t.id),
                |d: crate::rows::DependencyRow| crate::ledger::dispatch::bind(d),
            ),
            tasks: m.tasks.update(i, row),
            ..taken
        };
        let (from, to) = (TaskState::Queued, TaskState::Dispatching);
        recording_is_calm(set, t.id, from, to, TransitionReason::Plain);
        assert(b.events == record_transition(set, t.id, from, to, TransitionReason::Plain).events);
    }
}

proof fn claiming_is_calm(
    m: Model,
    worker: HarnessKey,
    session: HarnessSessionId,
    f: DispatchView,
)
    ensures
        calm(m, claim_next(m, worker, session, f).0),
{
    reveal(calm);
    if let Some(task) = next_claim(m, worker) {
        dispatching_is_calm(m, task, f);
        let next = dispatch_task(m, task, f).0;
        let b = claim_next(m, worker, session, f).0;
        inserting_is_calm(
            next,
            SupervisorEventKind::Notification,
            Some(task),
            None,
            None,
            EventOrigin::SessionBlocked { task },
            DeliveryIntent::FollowUp,
            Some(blocked_words(f)),
        );
        assert(calm(next, b));
        calm_passes_on(m, next, b);
    }
}

proof fn creating_is_calm(
    m: Model,
    q: KeyedRequest,
    new: NewTask,
    depends_on: Seq<DeclaredDependency>,
    attachments: Seq<AttachmentId>,
)
    ensures
        match create_task(m, q, new, depends_on, attachments) {
            Ok((next, _)) => calm(m, next),
            Err(_) => true,
        },
{
    reveal(calm);
    if let Ok((b, _)) = create_task(m, q, new, depends_on, attachments) {
        let told = Model { attached: m.attached, ..b };
        assert(told.reads == m.reads && told.events == m.events);
        growth_keeps_accounts(m, told);
        assert(accountable(told) ==> accountable(b)) by {
            reveal(accounts);
            assert forall|i: int| accountable(told) && 0 <= i < b.attached.len() implies rooted(
                b.messages,
                #[trigger] b.attached[i],
            ) by {
                if i < m.attached.len() {
                    assert(b.attached[i] == told.attached[i]);
                }
            }
        }
    }
}

// ---------------------------------------------------------------------------------------------
// Commands of Hosts
// ---------------------------------------------------------------------------------------------

proof fn stopping_is_calm(m: Model, worker: HarnessKey, now: u64)
    ensures
        match stop_worker(m, worker, now) {
            Ok(next) => calm(m, next),
            Err(_) => true,
        },
{
    reveal(calm);
    if let Some(i) = first_where(m.tasks, is_stoppable_of(worker)) {
        let t = m.tasks[i];
        transition_is_calm(m, t.id, t.state, TaskState::Cancelling, false);
    }
}

proof fn host_failure_is_calm(
    m: Model,
    actor: AuthenticatedActor,
    lost: Option<TaskRow>,
    why: Wording,
    now: u64,
)
    ensures
        calm(m, settle_host_failure(m, actor, lost, why, now)),
{
    reveal(calm);
    if let Some(t) = lost {
        let dropped = drop_connection(m, actor.connection, why);
        assert(calm(m, dropped));
        if let Some(i) = first_where(dropped.tasks, is_task(t.id)) {
            let row = TaskRow { state: TaskState::Failed, ..dropped.tasks[i] };
            let set = Model { tasks: dropped.tasks.update(i, row), ..dropped };
            let reason = TransitionReason::HostFailure { why };
            recording_is_calm(set, t.id, t.state, TaskState::Failed, reason);
            let moved = record_transition(set, t.id, t.state, TaskState::Failed, reason);
            assert(calm(m, moved));
            cascading_is_calm(moved, t.id);
            calm_passes_on(m, moved, cascade(moved, t.id));
        }
        let failed = fail_with_host(dropped, t, why);
        assert(calm(m, failed));
        let reason = HoldReason::WorkerHostFailed;
        let held = add_hold(failed, t.worktree, t.id, reason);
        announcing_is_calm(held, t.id, EventOrigin::Hold { task: t.id, reason });
        assert(calm(failed, guard_lost_work(failed, t)));
        calm_passes_on(m, failed, guard_lost_work(failed, t));
    }
}

proof fn failing_hosts_are_calm(
    m: Model,
    actor: AuthenticatedActor,
    diagnostic: Seq<char>,
    why: Wording,
    captured: Result<NewObservation, Refusal>,
    now: u64,
)
    ensures
        calm(m, host_failed(m, actor, diagnostic, why, captured, now).0),
{
    reveal(calm);
    match active_task(m, actor.id) {
        None => {
            host_failure_is_calm(m, actor, None, why, now);
        },
        Some(t) => {
            missing_evidence_is_calm(m, t.id, seq![t.state]);
            match record_checkpoint(m, t.id, ObservationCheckpoint::Failure, captured) {
                Ok(seen) => {
                    host_failure_is_calm(seen, actor, Some(t), why, now);
                },
                Err(_) => {
                    if let Ok(failed) = fail_for_missing_evidence(m, t.id, seq![t.state]) {
                        if let Ok(stopped) = host_stopped(failed, actor, false, now) {
                            assert(stopped.events == failed.events);
                        }
                    }
                },
            }
        },
    }
}

proof fn reaping_is_calm(
    m: Model,
    c: ConnectionRow,
    actor: AuthenticatedActor,
    captured: Result<NewObservation, Refusal>,
    now: u64,
)
    ensures
        calm(m, reap(m, c, actor, captured, now).0),
{
    reveal(calm);
    if let Some(claimed) = claim_stale(m, c, now) {
        assert(claimed.events == m.events);
        let (settled, r) = settle_lost_host(claimed, actor, captured, now);
        assert(calm(claimed, settled)) by {
            if actor.tier == HarnessTier::Supervisor {
                let why = Wording::SupervisorLeaseExpired;
                let dropped = drop_connection(claimed, actor.connection, why);
                doubting_unsettled_is_calm(dropped, why);
            } else {
                match message_under_way(claimed, actor.id) {
                    Some(message) => {
                        doubting_is_calm(
                            claimed,
                            actor,
                            message,
                            "Worker Host presence expired during native Task dispatch"@,
                            Wording::DispatchLeaseExpired,
                        );
                    },
                    None => {
                        failing_hosts_are_calm(
                            claimed,
                            actor,
                            "Worker Host presence lease expired without a clean disconnect"@,
                            Wording::WorkerLeaseExpired,
                            captured,
                            now,
                        );
                    },
                }
            }
        }
        assert(reap(m, c, actor, captured, now).0.events == settled.events);
    }
}

proof fn reaps_are_calm(
    m: Model,
    evidence: Seq<Result<NewObservation, Refusal>>,
    now: u64,
    n: nat,
)
    ensures
        calm(m, reap_upto(m, evidence, now, n).0),
    decreases n,
{
    reveal(calm);
    if n > 0 {
        reaps_are_calm(m, evidence, now, (n - 1) as nat);
        let before = reap_upto(m, evidence, now, (n - 1) as nat).0;
        let c = stale(m, now)[n - 1];
        reaping_is_calm(before, c, lost_host(m, c), evidence_for(evidence, n - 1), now);
        let after = reap_upto(m, evidence, now, n).0;
        assert(calm(before, after));
        calm_passes_on(m, before, after);
    }
}

// ---------------------------------------------------------------------------------------------
// Commands on events
// ---------------------------------------------------------------------------------------------

proof fn answering_is_calm(
    m: Model,
    actor: AuthenticatedActor,
    id: SupervisorEventId,
    resolution: SupervisorEventResolution,
    a: Seq<char>,
    b: Seq<char>,
    said: Acceptance,
)
    ensures
        accept_event(m, actor, id, a, b, said) is Ok ==> calm(
            m,
            accept_event(m, actor, id, a, b, said)->Ok_0,
        ),
        release_event(m, id, a, said.evidence) is Ok ==> calm(
            m,
            release_event(m, id, a, said.evidence)->Ok_0,
        ),
        mark_event_unknown(m, id, a, said.evidence) is Ok ==> calm(
            m,
            mark_event_unknown(m, id, a, said.evidence)->Ok_0,
        ),
        reconcile_event(m, id, resolution, a, said.evidence) is Ok ==> calm(
            m,
            reconcile_event(m, id, resolution, a, said.evidence)->Ok_0.0,
        ),
{
    reveal(calm);
    reveal(accounts);
    first_says(m.events, is_event(id));
}

proof fn acknowledging_is_calm(
    m: Model,
    actor: AuthenticatedActor,
    ids: Seq<SupervisorEventId>,
    n: nat,
)
    requires
        n <= ids.len(),
    ensures
        calm(m, acknowledge_upto(m, actor, ids, n)),
    decreases n,
{
    reveal(calm);
    reveal(accounts);
    if n > 0 {
        acknowledging_is_calm(m, actor, ids, (n - 1) as nat);
        let before = acknowledge_upto(m, actor, ids, (n - 1) as nat);
        let after = acknowledge(before, actor, ids[n - 1]);
        first_says(before.events, is_event(ids[n - 1]));
        assert(calm(before, after));
        calm_passes_on(m, before, after);
    }
}

// ---------------------------------------------------------------------------------------------
// The boundary
// ---------------------------------------------------------------------------------------------

spec fn untouching_command(command: CoordinatorCommand) -> bool {
    command is BindHostConnection
        || command is RenewHostConnection
        || command is DisconnectHostConnection
        || command is StartWorker
        || command is AbortWorkerStart
        || command is RotateWorkerSession
        || command is DeactivateWorkspace
        || command is RecordHostStopped
        || command is RecordHostReady
        || command is RecordHostCompatibility
        || command is RecordAdapterSnapshot
        || command is RecordHostEvent
        || command is AdmitAttachment
        || command is RecordSupervisorEventPresentation
}

#[verifier::spinoff_prover]
proof fn untouching_commands_are_calm(
    m: Model,
    actor: AuthenticatedActor,
    command: CoordinatorCommand,
    now: u64,
)
    requires
        untouching_command(command),
    ensures
        calm(m, perform(m, actor, command, now).0),
{
    let b = perform(m, actor, command, now).0;
    assert(b.events == m.events && b.messages == m.messages);
    assert(b.reads == m.reads && b.attached == m.attached);
    quiet_steps_are_calm(m, b);
}

proof fn quiet_steps_are_calm(a: Model, b: Model)
    requires
        b.events == a.events,
        b.messages == a.messages,
        b.reads == a.reads,
        b.attached == a.attached,
    ensures
        calm(a, b),
{
    reveal(calm);
}

proof fn completing_is_calm(
    m: Model,
    actor: AuthenticatedActor,
    turn: Seq<char>,
    new: NewResult,
    attachments: Seq<AttachmentId>,
    verification: Seq<AttachmentId>,
)
    ensures
        calm(m, complete_task(m, actor, turn, new, attachments, verification).0),
{
    reveal(calm);
    let b = complete_task(m, actor, turn, new, attachments, verification).0;
    assert(accountable(m) ==> accountable(b)) by {
        reveal(accounts);
        assert forall|i: int| accountable(m) && 0 <= i < b.attached.len() implies rooted(
            b.messages,
            #[trigger] b.attached[i],
        ) by {
            if i < m.attached.len() {
                assert(b.attached[i] == m.attached[i]);
            }
        }
    }
}

spec fn attention_command(command: CoordinatorCommand) -> bool {
    command is MarkInboxRead
        || command is AcknowledgeSupervisorEvents
        || command is RecordSupervisorBinding
        || command is RecordSupervisorDisconnected
        || command is AcceptSupervisorEvent
        || command is MarkSupervisorEventUnknown
        || command is ReleaseSupervisorEvent
        || command is ReconcileSupervisorEvent
        || command is WatchTaskGraph
}

proof fn reading_is_calm(m: Model, harness: HarnessKey, ids: Seq<MessageId>, n: nat)
    ensures
        calm(m, mark_read_upto(m, harness, ids, n).0),
    decreases n,
{
    reveal(calm);
    reveal(accounts);
    if n > 0 {
        reading_is_calm(m, harness, ids, (n - 1) as nat);
        let before = mark_read_upto(m, harness, ids, (n - 1) as nat).0;
        let after = mark_read_upto(m, harness, ids, n).0;
        let id = ids[n - 1];
        first_says(before.messages, is_message(id));
        if addressed(before, harness, id) {
            assert(knows(before.messages, id));
        }
        assert(calm(before, after));
        calm_passes_on(m, before, after);
    }
}

#[verifier::spinoff_prover]
proof fn attention_commands_are_calm(
    m: Model,
    actor: AuthenticatedActor,
    command: CoordinatorCommand,
    now: u64,
)
    requires
        attention_command(command),
    ensures
        calm(m, perform(m, actor, command, now).0),
{
    reveal(calm);
    match command {
        CoordinatorCommand::MarkInboxRead { message_ids } => {
            reading_is_calm(m, actor.id, message_ids@, message_ids@.len());
        },
        CoordinatorCommand::AcknowledgeSupervisorEvents { event_ids } => {
            acknowledging_is_calm(m, actor, event_ids@, event_ids@.len());
        },
        CoordinatorCommand::RecordSupervisorBinding { .. } => {
            doubting_unsettled_is_calm(m, Wording::SupervisorReconnected);
        },
        CoordinatorCommand::RecordSupervisorDisconnected { key, .. } => {
            let closing = or_else(given(key), Wording::SupervisorDisconnected);
            doubting_unsettled_is_calm(
                drop_connection(m, actor.connection, closing),
                or_else(given(key), Wording::SupervisorDisconnectedDispatching),
            );
        },
        CoordinatorCommand::AcceptSupervisorEvent {
            event_id,
            native_correlation,
            evidence,
            said,
        } => {
            answering_is_calm(
                m,
                actor,
                event_id,
                SupervisorEventResolution::Retry,
                native_correlation@,
                evidence@,
                said,
            );
        },
        CoordinatorCommand::MarkSupervisorEventUnknown { event_id, diagnostic, key } => {
            answering_is_calm(
                m,
                actor,
                event_id,
                SupervisorEventResolution::Retry,
                diagnostic@,
                diagnostic@,
                Acceptance { correlation: key, turn: None, evidence: key },
            );
        },
        CoordinatorCommand::ReleaseSupervisorEvent { event_id, diagnostic, key } => {
            answering_is_calm(
                m,
                actor,
                event_id,
                SupervisorEventResolution::Retry,
                diagnostic@,
                diagnostic@,
                Acceptance { correlation: key, turn: None, evidence: key },
            );
        },
        CoordinatorCommand::ReconcileSupervisorEvent {
            event_id,
            resolution,
            audit_note,
            note,
        } => {
            answering_is_calm(
                m,
                actor,
                event_id,
                resolution,
                audit_note@,
                audit_note@,
                Acceptance { correlation: note, turn: None, evidence: note },
            );
        },
        CoordinatorCommand::WatchTaskGraph { watch_id, root_task_ids, request_key } => {
            let watched = Model {
                watches: m.watches.push(
                    WatchRow {
                        id: watch_id,
                        supervisor: actor.id,
                        request_key,
                        completed: false,
                    },
                ),
                watch_roots: m.watch_roots + roots_of(watch_id, root_task_ids@),
                ..m
            };
            watching_is_calm(watched, watched.watches.len());
        },
        _ => {},
    }
}

#[verifier::rlimit(40)]
#[verifier::spinoff_prover]
proof fn performing_is_calm(
    m: Model,
    actor: AuthenticatedActor,
    command: CoordinatorCommand,
    now: u64,
)
    requires
        !(command is ClaimNextSupervisorEvent),
    ensures
        calm(m, perform(m, actor, command, now).0),
{
    let b = perform(m, actor, command, now).0;
    nothing_done_is_calm(m);
    match command {
        CoordinatorCommand::CreateTask { request_key, payload, task, depends_on, attachments } => {
            let q = KeyedRequest { actor: actor.id, creates_task: true, request_key, payload };
            creating_is_calm(m, q, task, depends_on@, attachments@);
            assert(b == (match create_task(m, q, task, depends_on@, attachments@) {
                Ok((next, _)) => next,
                Err(_) => m,
            }));
        },
        CoordinatorCommand::DispatchTask { task_id, facts } => {
            dispatching_is_calm(m, task_id, facts@);
        },
        CoordinatorCommand::ClaimNextTask { facts } => {
            claiming_is_calm(m, actor.id, actor.session, facts@);
        },
        CoordinatorCommand::SendMessage { request_key, payload, message, attachments } => {
            sending_is_calm(
                m,
                actor,
                KeyedRequest { actor: actor.id, creates_task: false, request_key, payload },
                message,
                attachments@,
            );
        },
        CoordinatorCommand::AcceptDelivery { message_id, native_correlation, correlation } => {
            accepting_is_calm(m, actor, message_id, native_correlation@, correlation);
        },
        CoordinatorCommand::CompleteTask {
            native_turn_id,
            result,
            attachments,
            verification,
        } => {
            completing_is_calm(
                m,
                actor,
                native_turn_id@,
                result,
                attachments@,
                verification@,
            );
        },
        CoordinatorCommand::RecordTurnCompleted {
            task_id,
            turn,
            succeeded,
            captured,
            message_id,
        } => {
            completed_turns_are_calm(
                m,
                actor,
                task_id,
                turn,
                succeeded,
                outcome(captured),
                message_id,
            );
        },
        CoordinatorCommand::CaptureRepositoryObservation {
            task_id,
            checkpoint,
            captured,
        } => {
            observing_is_calm(
                m,
                actor,
                task_id,
                checkpoint,
                outcome(captured),
            );
        },
        CoordinatorCommand::ApproveTask {
            task_id,
            result_revision,
            observation_digest,
            digest,
            drift,
        } => {
            approving_is_calm(
                m,
                task_id,
                result_revision,
                observation_digest@,
                digest,
                optional_refusal(drift),
            );
        },
        CoordinatorCommand::CancelTask { task_id } => {
            cancelling_is_calm(m, task_id);
        },
        CoordinatorCommand::RecordCancellationCompleted { task_id, succeeded, captured } => {
            cancellations_are_calm(
                m,
                actor,
                task_id,
                succeeded,
                outcome(captured),
            );
        },
        CoordinatorCommand::MarkDeliveryUnknown { message_id, diagnostic, key } => {
            doubting_is_calm(m, actor, message_id, diagnostic@, Wording::Given { text: key });
        },
        CoordinatorCommand::ResolveDeliveryUnknown {
            task_id,
            resolution,
            observation_digest,
            digest,
            audit_note,
            note,
            drift,
        } => {
            resolving_is_calm(
                m,
                task_id,
                resolution,
                observation_digest@,
                digest,
                audit_note@,
                note,
                optional_refusal(drift),
            );
        },
        CoordinatorCommand::ClearWorktreeHold {
            task_id,
            observation_digest,
            digest,
            audit_note,
            note,
            drift,
        } => {
            clearing_is_calm(
                m,
                task_id,
                observation_digest@,
                digest,
                audit_note@,
                note,
                optional_refusal(drift),
            );
        },
        CoordinatorCommand::StopWorker { worker_id } => {
            stopping_is_calm(m, worker_id, now);
        },
        CoordinatorCommand::RecordHostFailed { diagnostic, key, captured } => {
            failing_hosts_are_calm(
                m,
                actor,
                diagnostic@,
                Wording::Given { text: key },
                outcome(captured),
                now,
            );
        },
        _ => {
            if untouching_command(command) {
                untouching_commands_are_calm(m, actor, command, now);
            } else if attention_command(command) {
                attention_commands_are_calm(m, actor, command, now);
            } else {
                assert(b == m);
            }
        },
    }
}

proof fn executing_is_calm(m: Model, caller: Caller, command: CoordinatorCommand, now: u64)
    requires
        !(command is ClaimNextSupervisorEvent),
    ensures
        calm(m, execute(m, caller, command, now).0),
{
    reveal(calm);
    match authorize(m, caller, command, now) {
        Err(_) => {},
        Ok(Some(actor)) => {
            performing_is_calm(m, actor, command, now);
        },
        Ok(None) => {
            match command {
                CoordinatorCommand::ReapStaleHostConnections { evidence } => {
                    let found = outcomes(evidence@);
                    reaps_are_calm(m, found, now, stale(m, now).len());
                    let settled = reap_upto(m, found, now, stale(m, now).len()).0;
                    assert(reap_all(m, found, now).0.events == settled.events);
                },
                _ => {
                    assert(perform_bootstrap(m, command, now).0.events == m.events);
                },
            }
        },
    }
}

/// Only a claim sends an event out, and no command, a claim included, leaves two in flight.
pub proof fn every_command_keeps_one_event_in_flight(
    m: Model,
    caller: Caller,
    command: CoordinatorCommand,
    now: u64,
)
    requires
        one_in_flight(m),
    ensures
        one_in_flight(execute(m, caller, command, now).0),
        !(command is ClaimNextSupervisorEvent) ==> calm(m, execute(m, caller, command, now).0),
{
    reveal(calm);
    if command is ClaimNextSupervisorEvent {
        if let Ok(Some(actor)) = authorize(m, caller, command, now) {
            claims_are_exclusive_and_in_order(m, actor);
        }
    } else {
        executing_is_calm(m, caller, command, now);
        calm_keeps_one_in_flight(m, execute(m, caller, command, now).0);
    }
}

/// No command makes two events for one origin.
pub proof fn every_command_keeps_origins_apart(
    m: Model,
    caller: Caller,
    command: CoordinatorCommand,
    now: u64,
)
    requires
        origins_differ(m),
    ensures
        origins_differ(execute(m, caller, command, now).0),
{
    reveal(calm);
    if command is ClaimNextSupervisorEvent {
        if let Ok(Some(actor)) = authorize(m, caller, command, now) {
            claims_keep_places(m, actor);
        }
    } else {
        executing_is_calm(m, caller, command, now);
    }
}

proof fn claims_keep_places(m: Model, actor: AuthenticatedActor)
    ensures
        ({
            let b = claim_event(m, actor).0;
            &&& b.events.len() == m.events.len()
            &&& forall|i: int|
                0 <= i < b.events.len() ==> same_event(m.events[i], #[trigger] b.events[i]) && (closed(m.events[i]) ==> closed(b.events[i]))
            &&& origins_differ(m) ==> origins_differ(b)
        }),
{
    reveal(calm);
    first_says(m.events, is_pending());
    let b = claim_event(m, actor).0;
    assert forall|i: int, j: int| origins_differ(m) && 0 <= i < j < b.events.len() implies (
    #[trigger] b.events[i]).origin != (#[trigger] b.events[j]).origin by {
        assert(m.events[i].origin != m.events[j].origin);
    }
}

/// An event that was processed or cancelled never comes back, whatever command is given.
pub proof fn settled_events_stay_settled(
    m: Model,
    caller: Caller,
    command: CoordinatorCommand,
    now: u64,
    i: int,
)
    requires
        0 <= i < m.events.len(),
        closed(m.events[i]),
    ensures
        i < execute(m, caller, command, now).0.events.len(),
        closed(execute(m, caller, command, now).0.events[i]),
{
    reveal(calm);
    if command is ClaimNextSupervisorEvent {
        if let Ok(Some(actor)) = authorize(m, caller, command, now) {
            claims_keep_places(m, actor);
        }
    } else {
        executing_is_calm(m, caller, command, now);
    }
}

/// An event says what it said when it was made, about the same, whatever command comes.
pub proof fn every_command_keeps_what_events_say(
    m: Model,
    caller: Caller,
    command: CoordinatorCommand,
    now: u64,
    i: int,
)
    requires
        0 <= i < m.events.len(),
    ensures
        i < execute(m, caller, command, now).0.events.len(),
        same_event(m.events[i], execute(m, caller, command, now).0.events[i]),
{
    reveal(calm);
    if command is ClaimNextSupervisorEvent {
        if let Ok(Some(actor)) = authorize(m, caller, command, now) {
            claims_keep_places(m, actor);
        }
    } else {
        executing_is_calm(m, caller, command, now);
    }
}

/// Every command keeps the ledger accountable: no read mark, event or Attachment refers to a
/// Message that does not exist.
pub proof fn every_command_keeps_the_ledger_accountable(
    m: Model,
    caller: Caller,
    command: CoordinatorCommand,
    now: u64,
)
    requires
        accountable(m),
    ensures
        accountable(execute(m, caller, command, now).0),
{
    reveal(calm);
    if command is ClaimNextSupervisorEvent {
        if let Ok(Some(actor)) = authorize(m, caller, command, now) {
            claims_keep_places(m, actor);
            reveal(accounts);
            let b = claim_event(m, actor).0;
            assert forall|i: int| 0 <= i < b.events.len() implies grounded(
                b.messages,
                #[trigger] b.events[i],
            ) by {
                assert(grounded(m.messages, m.events[i]));
            }
        }
    } else {
        executing_is_calm(m, caller, command, now);
    }
}

/// A new ledger is accountable.
pub proof fn empty_ledgers_are_accountable(m: Model)
    requires
        m.reads.len() == 0,
        m.events.len() == 0,
        m.attached.len() == 0,
    ensures
        accountable(m),
{
    reveal(accounts);
}

} // verus!

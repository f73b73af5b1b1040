//! What a reap of stale Host connections comes to.
use vstd::prelude::*;

use crate::contract::{HarnessTier, ObservationCheckpoint, TaskState};
use crate::error::Refusal;
use crate::identity::{HostConnectionId, MessageId, TaskId};
use crate::ledger::connections::{
    claim_stale, evidence_for, expiry_place, is_expired_active, is_settling, is_stale, lost_host,
    message_under_way, reap, reap_all, reap_upto, settle_lost_host, stale,
    stale_connections_are_listed, stale_upto,
};
use crate::ledger::events::note_timeouts_frame;
use crate::ledger::evidence::{fail_for_missing_evidence, record_checkpoint, NewObservation};
use crate::ledger::frames::{cascade_frame, transition_frame};
use crate::ledger::hosts::{drop_connection, is_active_connection};
use crate::ledger::reconcile::{doubted, mark_delivery_unknown};
use crate::ledger::shutdown::{active_task, fail_with_host, host_failed, settle_host_failure};
use crate::ledger::{
    is_harness, is_session, is_task, record_transition, record_transition_frame, Model,
};
use crate::rows::{AuthenticatedActor, ConnectionStatus, TaskRow, TransitionReason, Wording};
use crate::select::{first_found, first_says, first_where};

verus! {

/// No two connections have the same identity.
pub open spec fn unique_connections(m: Model) -> bool {
    forall|i: int, j: int|
        0 <= i < j < m.connections.len() ==> (#[trigger] m.connections[i]).id != (
        #[trigger] m.connections[j]).id
}

/// Connections stay in their places, and but for one of them as they are.
pub open spec fn keeps_others(a: Model, b: Model, id: HostConnectionId) -> bool {
    &&& a.connections.len() == b.connections.len()
    &&& forall|i: int|
        0 <= i < b.connections.len() ==> (#[trigger] b.connections[i]).id == a.connections[i].id
            && (a.connections[i].id != id ==> b.connections[i] == a.connections[i])
}

// ---------------------------------------------------------------------------------------------
// What a settlement leaves alone
// ---------------------------------------------------------------------------------------------

proof fn doubting_keeps_connections(
    m: Model,
    actor: AuthenticatedActor,
    id: MessageId,
    diagnostic: Seq<char>,
    why: Wording,
)
    ensures
        match mark_delivery_unknown(m, actor, id, diagnostic, why) {
            Ok((next, _)) => next.connections == m.connections,
            Err(_) => true,
        },
{
    if let Ok((b, task)) = mark_delivery_unknown(m, actor, id, diagnostic, why) {
        first_says(m.tasks, is_task(task));
        transition_frame(
            doubted(m, id, why),
            task,
            TaskState::Dispatching,
            TaskState::DeliveryUnknown,
            false,
        );
    }
}

proof fn missing_evidence_keeps_connections(m: Model, task: TaskId, expected: Seq<TaskState>)
    ensures
        match fail_for_missing_evidence(m, task, expected) {
            Ok(next) => next.connections == m.connections,
            Err(_) => true,
        },
{
    if let Ok(b) = fail_for_missing_evidence(m, task, expected) {
        let i = first_where(m.tasks, is_task(task))->0;
        let t = m.tasks[i];
        let set = Model {
            tasks: m.tasks.update(i, TaskRow { state: TaskState::Failed, ..t }),
            ..m
        };
        let reason = TransitionReason::MissingEvidence;
        record_transition_frame(set, task, t.state, TaskState::Failed, reason);
        cascade_frame(record_transition(set, task, t.state, TaskState::Failed, reason), task);
    }
}

/// The connections stay as they are, or as they are once the one of that identity is lost.
spec fn loses_at_most(m: Model, b: Model, id: HostConnectionId) -> bool {
    ||| b.connections == m.connections
    ||| exists|why: Wording|
        b.connections == (#[trigger] drop_connection(m, Some(id), why)).connections
}

proof fn dropping_keeps_others(m: Model, id: HostConnectionId, why: Wording)
    ensures
        keeps_others(m, drop_connection(m, Some(id), why), id),
{
    first_says(m.connections, is_active_connection(id));
}

proof fn host_failure_keeps_others(
    m: Model,
    actor: AuthenticatedActor,
    lost: Option<TaskRow>,
    why: Wording,
    now: u64,
    id: HostConnectionId,
)
    requires
        actor.connection == Some(id),
    ensures
        settle_host_failure(m, actor, lost, why, now).connections == drop_connection(
            m,
            Some(id),
            why,
        ).connections,
{
    if let Some(t) = lost {
        let dropped = drop_connection(m, actor.connection, why);
        if let Some(i) = first_where(dropped.tasks, is_task(t.id)) {
            let row = TaskRow { state: TaskState::Failed, ..dropped.tasks[i] };
            let set = Model { tasks: dropped.tasks.update(i, row), ..dropped };
            let reason = TransitionReason::HostFailure { why };
            record_transition_frame(set, t.id, t.state, TaskState::Failed, reason);
            let moved = record_transition(set, t.id, t.state, TaskState::Failed, reason);
            cascade_frame(moved, t.id);
        }
        assert(fail_with_host(dropped, t, why).connections == dropped.connections);
    }
}

proof fn failing_hosts_keep_others(
    m: Model,
    actor: AuthenticatedActor,
    diagnostic: Seq<char>,
    why: Wording,
    captured: Result<NewObservation, Refusal>,
    now: u64,
    id: HostConnectionId,
)
    requires
        actor.connection == Some(id),
    ensures
        loses_at_most(m, host_failed(m, actor, diagnostic, why, captured, now).0, id),
{
    let b = host_failed(m, actor, diagnostic, why, captured, now).0;
    let stopped = Wording::HostStopped { clean: false };
    match active_task(m, actor.id) {
        None => {
            host_failure_keeps_others(m, actor, None, why, now, id);
            assert(b.connections == m.connections || b.connections == drop_connection(
                m,
                Some(id),
                why,
            ).connections);
        },
        Some(t) => {
            missing_evidence_keeps_connections(m, t.id, seq![t.state]);
            match record_checkpoint(m, t.id, ObservationCheckpoint::Failure, captured) {
                Ok(seen) => {
                    host_failure_keeps_others(seen, actor, Some(t), why, now, id);
                    assert(b.connections == m.connections || b.connections == drop_connection(
                        m,
                        Some(id),
                        why,
                    ).connections);
                },
                Err(_) => {
                    assert(b.connections == m.connections || b.connections == drop_connection(
                        m,
                        Some(id),
                        stopped,
                    ).connections);
                },
            }
        },
    }
}

/// The settlement of a lost Host changes connections at most as the loss of its own does.
proof fn settling_keeps_others(
    m: Model,
    actor: AuthenticatedActor,
    captured: Result<NewObservation, Refusal>,
    now: u64,
    id: HostConnectionId,
)
    requires
        actor.connection == Some(id),
    ensures
        loses_at_most(m, settle_lost_host(m, actor, captured, now).0, id),
{
    if actor.tier == HarnessTier::Supervisor {
        let why = Wording::SupervisorLeaseExpired;
        let dropped = drop_connection(m, actor.connection, why);
        note_timeouts_frame(dropped, dropped.event_attempts.len(), why);
    } else {
        match message_under_way(m, actor.id) {
            Some(message) => {
                doubting_keeps_connections(
                    m,
                    actor,
                    message,
                    "Worker Host presence expired during native Task dispatch"@,
                    Wording::DispatchLeaseExpired,
                );
            },
            None => {
                failing_hosts_keep_others(
                    m,
                    actor,
                    "Worker Host presence lease expired without a clean disconnect"@,
                    Wording::WorkerLeaseExpired,
                    captured,
                    now,
                    id,
                );
            },
        }
    }
}

/// One settlement: a connection that stands in the table as it was found stale is taken, and is
/// expired where the settlement is not refused; no other connection changes.
proof fn reaping_expires(
    m: Model,
    i: int,
    actor: AuthenticatedActor,
    captured: Result<NewObservation, Refusal>,
    now: u64,
)
    requires
        unique_connections(m),
        0 <= i < m.connections.len(),
        m.connections[i].status == ConnectionStatus::Active && m.connections[i].expires_at <= now
            || m.connections[i].status == (ConnectionStatus::Disconnected { settling: true }),
        actor.connection == Some(m.connections[i].id),
    ensures
        ({
            let c = m.connections[i];
            let (b, r) = reap(m, c, actor, captured, now);
            &&& keeps_others(m, b, c.id)
            &&& r is Ok ==> r == Ok::<bool, Refusal>(true) && b.connections[i].status
                == ConnectionStatus::Expired
        }),
{
    let c = m.connections[i];
    let (b, r) = reap(m, c, actor, captured, now);
    if c.status == ConnectionStatus::Active {
        assert forall|j: int| 0 <= j < i implies !is_expired_active(c.id, now)(
            #[trigger] m.connections[j],
        ) by {
            assert(m.connections[j].id != m.connections[i].id);
        }
        first_found(m.connections, is_expired_active(c.id, now), i);
    } else {
        first_found_settling(m, i);
    }
    let claimed = claim_stale(m, c, now)->0;
    assert(claim_stale(m, c, now) is Some);
    assert(claimed.connections[i].status == (ConnectionStatus::Disconnected { settling: true }));
    assert(unique_connections(claimed)) by {
        assert forall|x: int, y: int| 0 <= x < y < claimed.connections.len() implies (
        #[trigger] claimed.connections[x]).id != (#[trigger] claimed.connections[y]).id by {
            assert(m.connections[x].id != m.connections[y].id);
        }
    }
    settling_keeps_others(claimed, actor, captured, now, c.id);
    assert forall|why: Wording|
        (#[trigger] drop_connection(claimed, Some(c.id), why)).connections
            == claimed.connections by {
        first_says(claimed.connections, is_active_connection(c.id));
        if let Some(k) = first_where(claimed.connections, is_active_connection(c.id)) {
            assert(is_active_connection(c.id)(claimed.connections[k]));
            if k < i {
                assert(claimed.connections[k].id != claimed.connections[i].id);
            } else if k > i {
                assert(claimed.connections[i].id != claimed.connections[k].id);
            }
        }
    }
    let (settled, s) = settle_lost_host(claimed, actor, captured, now);
    assert(settled.connections == claimed.connections);
    if s is Ok {
        assert(unique_connections(settled));
        first_found_settling(settled, i);
    }
}

proof fn first_found_settling(m: Model, i: int)
    requires
        unique_connections(m),
        0 <= i < m.connections.len(),
        m.connections[i].status == (ConnectionStatus::Disconnected { settling: true }),
    ensures
        first_where(m.connections, is_settling(m.connections[i].id)) == Some(i),
{
    let id = m.connections[i].id;
    assert forall|j: int| 0 <= j < i implies !is_settling(id)(#[trigger] m.connections[j]) by {
        assert(m.connections[j].id != m.connections[i].id);
    }
    first_found(m.connections, is_settling(id), i);
}

// ---------------------------------------------------------------------------------------------
// The whole reap
// ---------------------------------------------------------------------------------------------

/// Where the `k`th of the stale connections stands in the table.
spec fn stands_at(m: Model, now: u64, n: nat, k: int, i: int) -> bool {
    &&& 0 <= i < n
    &&& m.connections[i] == stale_upto(m, now, n)[k]
}

/// The `k`th of the stale connections stands in the table.
spec fn stands(m: Model, now: u64, n: nat, k: int) -> bool {
    exists|i: int| #[trigger] stands_at(m, now, n, k, i)
}

proof fn stale_ones_stand_in_the_table(m: Model, now: u64, n: nat)
    requires
        unique_connections(m),
        n <= m.connections.len(),
    ensures
        forall|k: int|
            0 <= k < stale_upto(m, now, n).len() ==> #[trigger] stands(m, now, n, k),
        forall|k: int, l: int|
            0 <= k < l < stale_upto(m, now, n).len() ==> (#[trigger] stale_upto(m, now, n)[k]).id
                != (#[trigger] stale_upto(m, now, n)[l]).id,
    decreases n,
{
    if n > 0 {
        let p = (n - 1) as nat;
        stale_ones_stand_in_the_table(m, now, p);
        stale_connections_are_listed(m, now, p);
        let before = stale_upto(m, now, p);
        let after = stale_upto(m, now, n);
        let c = m.connections[n - 1];
        first_says(before, crate::ledger::connections::ends_after(c.expires_at));
        let at = expiry_place(before, c);
        let earlier = |k: int| if is_stale(m, now)(c) && k > at {
            k - 1
        } else {
            k
        };
        assert forall|k: int| 0 <= k < after.len() implies #[trigger] stands(m, now, n, k) by {
            if is_stale(m, now)(c) && k == at {
                assert(stands_at(m, now, n, k, n - 1));
            } else {
                assert(after[k] == before[earlier(k)]);
                assert(stands(m, now, p, earlier(k)));
                let i = choose|i: int| #[trigger] stands_at(m, now, p, earlier(k), i);
                assert(stands_at(m, now, n, k, i));
            }
        }
        assert forall|k: int, l: int| 0 <= k < l < after.len() implies (#[trigger] after[k]).id != (
        #[trigger] after[l]).id by {
            if is_stale(m, now)(c) && (k == at || l == at) {
                let other = if k == at {
                    l
                } else {
                    k
                };
                assert(after[other] == before[earlier(other)]);
                assert(stands(m, now, p, earlier(other)));
                let i = choose|i: int| #[trigger] stands_at(m, now, p, earlier(other), i);
                assert(m.connections[i].id != m.connections[n - 1].id);
            } else {
                assert(after[k] == before[earlier(k)] && after[l] == before[earlier(l)]);
            }
        }
    }
}

/// After the first `n` settlements: those are expired, and every other connection is as it was.
spec fn settled_so_far(m: Model, now: u64, b: Model, n: nat) -> bool {
    &&& b.connections.len() == m.connections.len()
    &&& forall|i: int|
        0 <= i < b.connections.len() ==> (#[trigger] b.connections[i]).id == m.connections[i].id
    &&& forall|i: int|
        0 <= i < b.connections.len() ==> (#[trigger] b.connections[i]) == m.connections[i] || (
        exists|k: int| 0 <= k < n && (#[trigger] stale(m, now)[k]).id == m.connections[i].id)
    &&& forall|i: int, k: int|
        0 <= i < b.connections.len() && 0 <= k < n && (#[trigger] stale(m, now)[k]).id
            == m.connections[i].id ==> (#[trigger] b.connections[i]).status
            == ConnectionStatus::Expired
}

proof fn reaps_expire(
    m: Model,
    evidence: Seq<Result<NewObservation, Refusal>>,
    now: u64,
    n: nat,
)
    requires
        unique_connections(m),
        n <= stale(m, now).len(),
        n <= u32::MAX,
        reap_upto(m, evidence, now, n).1 is Ok,
    ensures
        reap_upto(m, evidence, now, n).1 == Ok::<u32, Refusal>(n as u32),
        settled_so_far(m, now, reap_upto(m, evidence, now, n).0, n),
    decreases n,
{
    if n > 0 {
        let p = (n - 1) as nat;
        reaps_expire(m, evidence, now, p);
        let before = reap_upto(m, evidence, now, p).0;
        let after = reap_upto(m, evidence, now, n).0;
        let all = m.connections.len();
        stale_ones_stand_in_the_table(m, now, all);
        stale_connections_are_listed(m, now, all);
        let list = stale(m, now);
        let c = list[n - 1];
        assert(is_stale(m, now)(stale_upto(m, now, all)[n - 1]));
        assert(stands(m, now, all, n - 1));
        let i = choose|i: int| #[trigger] stands_at(m, now, all, n - 1, i);
        assert(m.connections[i] == c);
        assert(before.connections[i] == m.connections[i]) by {
            if before.connections[i] != m.connections[i] {
                let k = choose|k: int| 0 <= k < p && (#[trigger] list[k]).id == m.connections[i].id;
                assert(list[k].id != list[n - 1].id);
            }
        }
        assert(unique_connections(before)) by {
            assert forall|x: int, y: int| 0 <= x < y < before.connections.len() implies (
            #[trigger] before.connections[x]).id != (#[trigger] before.connections[y]).id by {
                assert(m.connections[x].id != m.connections[y].id);
            }
        }
        reaping_expires(before, i, lost_host(m, c), evidence_for(evidence, n - 1), now);
        assert forall|x: int| 0 <= x < after.connections.len() implies (
        #[trigger] after.connections[x]) == m.connections[x] || (exists|k: int|
            0 <= k < n && (#[trigger] list[k]).id == m.connections[x].id) by {
            if m.connections[x].id == c.id {
                assert(list[n - 1].id == m.connections[x].id);
            } else {
                assert(after.connections[x] == before.connections[x]);
                if before.connections[x] != m.connections[x] {
                    let k = choose|k: int|
                        0 <= k < p && (#[trigger] list[k]).id == m.connections[x].id;
                    assert(0 <= k < n && list[k].id == m.connections[x].id);
                }
            }
        }
        assert forall|x: int, k: int|
            0 <= x < after.connections.len() && 0 <= k < n && (#[trigger] list[k]).id
                == m.connections[x].id implies (#[trigger] after.connections[x]).status
            == ConnectionStatus::Expired by {
            if k == n - 1 {
                if x < i {
                    assert(m.connections[x].id != m.connections[i].id);
                } else if x > i {
                    assert(m.connections[i].id != m.connections[x].id);
                }
            } else {
                assert(list[k].id != list[n - 1].id);
                assert(after.connections[x] == before.connections[x]);
            }
        }
    }
}

/// A reap that is not refused counts every stale connection once, and leaves each of them expired.
pub proof fn reaps_count_what_was_stale(
    m: Model,
    evidence: Seq<Result<NewObservation, Refusal>>,
    now: u64,
    i: int,
)
    requires
        unique_connections(m),
        stale(m, now).len() <= u32::MAX,
        reap_all(m, evidence, now).1 is Ok,
        0 <= i < m.connections.len(),
    ensures
        reap_all(m, evidence, now).1 == Ok::<u32, Refusal>(stale(m, now).len() as u32),
        is_stale(m, now)(m.connections[i]) ==> reap_all(m, evidence, now).0.connections[i].status
            == ConnectionStatus::Expired,
{
    let list = stale(m, now);
    reaps_expire(m, evidence, now, list.len());
    let settled = reap_upto(m, evidence, now, list.len()).0;
    if is_stale(m, now)(m.connections[i]) {
        stale_ones_are_in_the_list(m, now, m.connections.len(), i);
        let k = choose|k: int| 0 <= k < list.len() && (#[trigger] list[k]) == m.connections[i];
        assert(list[k].id == m.connections[i].id);
        assert(settled.connections[i].status == ConnectionStatus::Expired);
    }
}

proof fn stale_ones_are_in_the_list(m: Model, now: u64, n: nat, i: int)
    requires
        n <= m.connections.len(),
        0 <= i < n,
        is_stale(m, now)(m.connections[i]),
    ensures
        exists|k: int|
            0 <= k < stale_upto(m, now, n).len() && (#[trigger] stale_upto(m, now, n)[k])
                == m.connections[i],
    decreases n,
{
    let p = (n - 1) as nat;
    let before = stale_upto(m, now, p);
    let after = stale_upto(m, now, n);
    let c = m.connections[n - 1];
    first_says(before, crate::ledger::connections::ends_after(c.expires_at));
    let at = expiry_place(before, c);
    if i == n - 1 {
        assert(after[at] == m.connections[i]);
    } else {
        stale_ones_are_in_the_list(m, now, p, i);
        let k = choose|k: int| 0 <= k < before.len() && (#[trigger] before[k]) == m.connections[i];
        if is_stale(m, now)(c) && k >= at {
            assert(after[k + 1] == m.connections[i]);
        } else {
            assert(after[k] == m.connections[i]);
        }
    }
}

/// A reap leaves alone every connection whose lease still runs, and expires every active connection
/// whose lease ran out while it is the newest one of a Session that lives.
pub proof fn reaps_end_what_ran_out(
    m: Model,
    evidence: Seq<Result<NewObservation, Refusal>>,
    now: u64,
    i: int,
    s: int,
    h: int,
)
    requires
        unique_connections(m),
        stale(m, now).len() <= u32::MAX,
        reap_all(m, evidence, now).1 is Ok,
        0 <= i < m.connections.len(),
        m.connections[i].status == ConnectionStatus::Active,
        0 <= s < m.sessions.len(),
        m.sessions[s].id == m.connections[i].session,
        forall|j: int| 0 <= j < s ==> (#[trigger] m.sessions[j]).id != m.connections[i].session,
        m.sessions[s].generation == m.connections[i].generation,
        !m.sessions[s].ended,
        0 <= h < m.harnesses.len(),
        m.harnesses[h].key == m.sessions[s].harness,
    ensures
        m.connections[i].expires_at > now ==> reap_all(m, evidence, now).0.connections[i]
            == m.connections[i],
        m.connections[i].expires_at <= now ==> reap_all(m, evidence, now).0.connections[i].status
            == ConnectionStatus::Expired,
{
    let list = stale(m, now);
    let c = m.connections[i];
    reaps_count_what_was_stale(m, evidence, now, i);
    reaps_expire(m, evidence, now, list.len());
    first_found(m.sessions, is_session(c.session), s);
    assert(is_harness(m.sessions[s].harness)(m.harnesses[h]));
    first_says(m.harnesses, is_harness(m.sessions[s].harness));
    if c.expires_at > now {
        let settled = reap_upto(m, evidence, now, list.len()).0;
        if settled.connections[i] != c {
            let k = choose|k: int| 0 <= k < list.len() && (#[trigger] list[k]).id == c.id;
            let all = m.connections.len();
            stale_ones_stand_in_the_table(m, now, all);
            stale_connections_are_listed(m, now, all);
            assert(is_stale(m, now)(stale_upto(m, now, all)[k]));
            assert(stands(m, now, all, k));
            let x = choose|x: int| #[trigger] stands_at(m, now, all, k, x);
            assert(m.connections[x] == list[k]);
            if x < i {
                assert(m.connections[x].id != m.connections[i].id);
            } else if i < x {
                assert(m.connections[i].id != m.connections[x].id);
            }
        }
    }
}

} // verus!

use herdr_coordinator::contract::HarnessTier;
use herdr_coordinator::identity::HarnessId;
use herdr_coordinator::views::{
    first_online_worker, needs_stop, selected_workers_are_online, workers_settled,
    HarnessStatusView,
};

fn harness_status(id: &str, presence: &str, activity: &str) -> HarnessStatusView {
    HarnessStatusView {
        id: HarnessId(id.to_owned()),
        tier: HarnessTier::Worker,
        presence: presence.to_owned(),
        activity: activity.to_owned(),
        unread_messages: 0,
        active_task_id: None,
    }
}

#[test]
fn activation_readiness_ignores_historical_unselected_workers() {
    let status = vec![
        harness_status("old-worker", "online", "stopping"),
        harness_status("selected-worker", "online", "idle"),
    ];

    assert!(selected_workers_are_online(&status, &vec![HarnessId("selected-worker".to_owned())]));
    assert!(!selected_workers_are_online(&status, &vec![HarnessId("old-worker".to_owned())]));
}

#[test]
fn unknown_workers_are_not_online() {
    assert!(!selected_workers_are_online(&Vec::new(), &vec![HarnessId("w".to_owned())]));
    assert!(selected_workers_are_online(&Vec::new(), &Vec::new()));
}

#[test]
fn workers_settle_when_none_is_left_running() {
    let stopped = vec![harness_status("a", "stopped", "idle")];
    assert!(workers_settled(&stopped, 0));
    let offline = vec![harness_status("a", "offline", "idle")];
    assert!(!workers_settled(&offline, 0));
    let online = vec![harness_status("a", "online", "idle")];
    assert!(workers_settled(&online, 1));
    assert!(needs_stop(&online[0]));
    assert!(!needs_stop(&stopped[0]));
    assert_eq!(first_online_worker(&online), Some(0));
    assert_eq!(first_online_worker(&stopped), None);
}

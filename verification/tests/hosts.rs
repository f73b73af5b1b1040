use herdr_coordinator::adapter::{AdapterCapabilities, AdapterLifecycle, NativeDeliveryKind, NativeTurnStatus};
use herdr_coordinator::contract::{
    DeliveryIntent, HarnessKind, SessionReusePolicy, SupervisorEventKind, TaskRole, TaskState,
};
use herdr_coordinator::digest::digest_text;
use herdr_coordinator::host::{
    clamp_selection, first_cancelling, has_active, is_stopping, on_popup_key, provider_environment, read_variable,
    render_popup, require_kind, require_profile, resolve_delivery, tries_again, CancelStep, DeliveryResult,
    EventKind, EventStep, PopupAction, PopupKey, TurnReport, WorkerHost,
};
use herdr_coordinator::identity::{
    AttachmentId, HarnessId, HarnessSessionId, MessageId, SupervisorEventId, TaskId,
};
use herdr_coordinator::supervisor_host::{
    compact_payload, enrich_event_summary, injection_kind, is_inherited, may_claim, prompt_kind,
    require_session, resolve_provider_executable, settle_injection, InjectionStep,
    NativeSupervisorSession, ResultSummary, SupervisorEvent, VerificationLine,
};
use herdr_coordinator::views::TaskView;

fn task(id: u128, worker: &str, state: TaskState) -> TaskView {
    TaskView {
        id: TaskId(id),
        worker_id: HarnessId(worker.to_owned()),
        state,
        result_revision: 1,
        task_role: TaskRole::Other,
        requested_session_policy: SessionReusePolicy::Auto,
        effective_session_policy: None,
        harness_session_id: None,
        session_reused: None,
        session_decision_reason: None,
        context_percent: None,
    }
}

#[test]
fn profiles_are_those_of_the_session() {
    let some = |text: &str| Some(text.to_owned());
    assert!(require_profile(&some("p"), &some(&digest_text("p"))).is_ok());
    assert_eq!(
        require_profile(&None, &None).unwrap_err(),
        "Worker Session has no launch profile snapshot"
    );
    assert_eq!(
        require_profile(&some("p"), &None).unwrap_err(),
        "Worker Session has no launch profile digest"
    );
    assert!(require_kind(HarnessKind::Omp, HarnessKind::Omp).is_ok());
    assert_eq!(
        require_kind(HarnessKind::Omp, HarnessKind::Codex).unwrap_err(),
        "Worker Harness Kind differs from its durable launch profile"
    );
    assert_eq!(
        require_profile(&some("q"), &some(&digest_text("p"))).unwrap_err(),
        "Worker launch profile snapshot digest does not match durable Session state"
    );
}

#[test]
fn providers_reach_their_coordinator() {
    let inherited = vec![
        ("LANG".to_owned(), "C".to_owned()),
        ("HERDR_HARNESS_CAPABILITY".to_owned(), "stale".to_owned()),
    ];
    let env = provider_environment(inherited, "bearer", "/k.sock", "/state");
    assert_eq!(read_variable(&env, "HERDR_HARNESS_CAPABILITY"), Some("bearer"));
    assert_eq!(read_variable(&env, "HERDR_COORDINATOR_SOCKET"), Some("/k.sock"));
    assert_eq!(read_variable(&env, "HERDR_PLUGIN_STATE_DIR"), Some("/state"));
    assert_eq!(read_variable(&env, "LANG"), Some("C"));
    assert_eq!(env.len(), 4);
}

#[test]
fn messages_take_the_way_of_their_intent() {
    let queues = |active_turn_follow_up: bool| AdapterCapabilities {
        persistent_session: true,
        active_turn_steering: true,
        active_turn_follow_up,
        cooperative_cancellation: true,
    };
    let way = |intent, lifecycle, follow| resolve_delivery(intent, lifecycle, queues(follow));
    assert_eq!(
        way(DeliveryIntent::Steer, AdapterLifecycle::Working, false),
        Some(NativeDeliveryKind::Steer)
    );
    assert_eq!(
        way(DeliveryIntent::FollowUp, AdapterLifecycle::Idle, false),
        Some(NativeDeliveryKind::StartTurn)
    );
    assert_eq!(
        way(DeliveryIntent::FollowUp, AdapterLifecycle::Working, true),
        Some(NativeDeliveryKind::FollowUp)
    );
    assert_eq!(way(DeliveryIntent::FollowUp, AdapterLifecycle::Working, false), None);
}

#[test]
fn only_unwritten_deliveries_are_tried_again() {
    assert!(tries_again(1, DeliveryResult::Unwritten));
    assert!(tries_again(2, DeliveryResult::Unwritten));
    assert!(!tries_again(3, DeliveryResult::Unwritten));
    assert!(!tries_again(1, DeliveryResult::Ambiguous));
    assert!(!tries_again(1, DeliveryResult::Accepted));
}

#[test]
fn hosts_settle_their_task() {
    let mut host = WorkerHost::new(0);
    host.current = Some(TaskId(9));
    assert_eq!(host.on_event(EventKind::Other), EventStep::Continue);
    assert_eq!(host.on_tasks(Some(TaskId(9)), 100), CancelStep::Interrupt { task: TaskId(9) });
    assert_eq!(host.on_tasks(Some(TaskId(9)), 200), CancelStep::Nothing);
    assert_eq!(host.on_event(EventKind::TurnCompleted), EventStep::Settle { task: TaskId(9) });
    assert_eq!(
        host.on_turn_end(TaskId(9), TaskState::Cancelling, NativeTurnStatus::Interrupted),
        TurnReport::Cancellation { task: TaskId(9), succeeded: true }
    );
    assert_eq!(host.on_event(EventKind::Gone), EventStep::Stop);
}

#[test]
fn cancellations_concern_the_own_worker() {
    let tasks = vec![
        task(1, "w1", TaskState::Working),
        task(2, "w2", TaskState::Cancelling),
        task(3, "w1", TaskState::Cancelling),
    ];
    assert_eq!(first_cancelling(&tasks, "w1"), Some(TaskId(3)));
    assert_eq!(first_cancelling(&tasks, "w3"), None);
    assert!(has_active(&tasks, "w1"));
    assert!(!has_active(&tasks, "w3"));
    assert!(is_stopping("stopping"));
    assert!(!is_stopping("idle"));
}

#[test]
fn popups_show_and_select() {
    let text = render_popup(&Vec::new(), &vec![task(1, "w1", TaskState::Reviewing)], &Vec::new(), &Vec::new());
    assert!(text.contains("00000000-0000-0000-0000-000000000001"));
    assert_eq!(on_popup_key(0, 2, PopupKey::Down), (1, PopupAction::Nothing));
    assert_eq!(on_popup_key(1, 2, PopupKey::Down), (1, PopupAction::Nothing));
    assert_eq!(on_popup_key(0, 2, PopupKey::Up), (0, PopupAction::Nothing));
    assert_eq!(on_popup_key(1, 2, PopupKey::Approve), (1, PopupAction::Approve(1)));
    assert_eq!(clamp_selection(5, 2), 1);
    assert_eq!(clamp_selection(5, 0), 0);
}

#[test]
fn supervisors_are_told_of_events() {
    let payload = compact_payload(&SupervisorEvent {
        id: SupervisorEventId(1),
        kind: SupervisorEventKind::ResultReady,
        task_id: Some(TaskId(2)),
        result_revision: Some(3),
        summary: "done".to_owned(),
        attachments: vec![AttachmentId(4), AttachmentId(5)],
    });
    assert!(payload.starts_with(
        "Coordinator Supervisor event\n\nEvent ID: 00000000-0000-0000-0000-000000000001\nKind: "
    ));
    assert!(payload.contains("\nResult revision: 3\n\nSummary:\ndone\n\nAttachments: 00000000-0000-0000-0000-000000000004, 00000000-0000-0000-0000-000000000005\n"));
    let summary = enrich_event_summary(&ResultSummary {
        worker: "w1".to_owned(),
        summary: "fixed".to_owned(),
        changed_files: vec!["src/lib.rs".to_owned()],
        verification: vec![VerificationLine {
            command: "cargo test".to_owned(),
            passed: true,
            exit_code: 0,
        }],
        risks: Vec::new(),
    });
    assert!(summary.contains("src/lib.rs"));
    assert!(summary.contains("cargo test"));
}

#[test]
fn injections_wait_for_the_supervisor() {
    assert!(may_claim(HarnessKind::Omp, AdapterLifecycle::Idle));
    assert_eq!(settle_injection(DeliveryResult::Accepted), InjectionStep::Accept);
    assert_eq!(settle_injection(DeliveryResult::Ambiguous), InjectionStep::Doubt);
    assert_eq!(settle_injection(DeliveryResult::Unwritten), InjectionStep::Release);
    assert!(injection_kind(HarnessKind::Codex, false, true, AdapterLifecycle::Idle).is_ok());
    assert!(prompt_kind(HarnessKind::Omp, " ", AdapterLifecycle::Idle).is_err());
    assert!(prompt_kind(HarnessKind::Omp, "go", AdapterLifecycle::Idle).is_ok());
    assert!(!is_inherited("SECRET"));
    let session = |id: u128| NativeSupervisorSession {
        coordinator_session_id: HarnessSessionId(id),
        native_session_id: None,
        thread_id: None,
    };
    assert!(require_session(HarnessKind::Omp, &Some(session(1)), &session(1)).is_ok());
    assert!(require_session(HarnessKind::Omp, &Some(session(1)), &session(2)).is_err());
    assert!(require_session(HarnessKind::Omp, &None, &session(1)).is_err());
}

#[test]
fn providers_are_found_on_the_search_path() {
    let regular = vec!["/b/codex".to_owned()];
    assert_eq!(
        resolve_provider_executable(HarnessKind::Codex, Some("/a:/b"), &regular).unwrap(),
        "/b/codex"
    );
    assert_eq!(
        resolve_provider_executable(HarnessKind::Omp, Some("/a:/b"), &regular).unwrap_err(),
        "resolving `omp` from PATH"
    );
    assert_eq!(
        resolve_provider_executable(HarnessKind::Omp, None, &regular).unwrap_err(),
        "PATH is unavailable"
    );
}

use herdr_coordinator::adapter::{lifecycle_named, AdapterLifecycle};
use herdr_coordinator::capability::{
    bearer_of, ActorContext, HostConnectionCapability, SessionCapability,
};
use herdr_coordinator::contract::{
    activity_from_str, delivery_intent_from_str, kind_name, message_kind_name, message_kind_named,
    observation_checkpoint_name, observation_checkpoint_named, presence_from_str,
    task_role_from_str, Activity, DeliveryIntent, DependencyCondition, DependencyFailurePolicy,
    HarnessKind, HarnessTier, MessageKind, ObservationCheckpoint, Presence, TaskRole, TaskState,
};
use herdr_coordinator::digest::{digest_bytes, digest_text, hex_text, is_digest, validate_digest};
use herdr_coordinator::error::ErrorCategory;
use herdr_coordinator::graph::validate_acyclic_task_graph;
use herdr_coordinator::identity::{parse_uuid_id, uuid_text, TaskId};
use herdr_coordinator::ledger::execute::Caller;
use herdr_coordinator::ledger::query::find_caller;
use herdr_coordinator::names::NameTable;
use herdr_coordinator::paths::{comes_before, join_path, parent_of, path_is_below, same_path};
use herdr_coordinator::rows::{AttemptState, DependencyRow, StoredMessageKind};
use herdr_coordinator::supervisor_host::require_tier;
use herdr_coordinator::text::{decimal_text, is_blank, join_words, signed_text, trim};

const EMPTY: &str = "e3b0c44298fc1c149afbf4c8996fb92427ae41e4649b934ca495991b7852b855";

#[test]
fn digests_are_those_of_sha256() {
    assert_eq!(digest_bytes(&[]), EMPTY);
    assert_eq!(
        digest_text("abc"),
        "ba7816bf8f01cfea414140de5dae2223b00361a396177a9cb410ff61f20015ad"
    );
    assert_eq!(hex_text(&[0, 255, 16]), "00ff10");
    assert!(is_digest(EMPTY));
    assert!(!is_digest("ABC"));
    assert_eq!(validate_digest("x").unwrap_err().category, ErrorCategory::InvalidInput);
}

#[test]
fn identities_are_written_and_read() {
    let text = uuid_text(0x0123_4567_89ab_cdef_0123_4567_89ab_cdef);
    assert_eq!(text, "01234567-89ab-cdef-0123-456789abcdef");
    assert_eq!(parse_uuid_id(&text).unwrap(), 0x0123_4567_89ab_cdef_0123_4567_89ab_cdef);
    assert_eq!(parse_uuid_id("nonsense").unwrap_err().category, ErrorCategory::StorageFailure);
}

#[test]
fn capabilities_are_random_bearers() {
    let first = SessionCapability::generate();
    let second = SessionCapability::generate();
    assert!(is_digest(&first.0));
    assert_ne!(first.0, second.0);
    assert_eq!(first.digest(), digest_text(&first.0));
    assert!(is_digest(&HostConnectionCapability::generate().0));
    assert_eq!(bearer_of([1; 32]), "01".repeat(32));
    let again = SessionCapability::from_bearer(first.0.clone()).unwrap();
    assert_eq!(again.0, first.0);
    assert_eq!(
        SessionCapability::from_bearer("short".to_owned()).unwrap_err().category,
        ErrorCategory::Unauthenticated
    );
    assert_eq!(
        HostConnectionCapability::from_bearer("short".to_owned()).unwrap_err().message,
        "Host connection capability has an invalid shape"
    );
}

#[test]
fn callers_are_found_by_the_stored_form() {
    let capability = SessionCapability::generate();
    let mut stored = NameTable::new();
    stored.intern("another");
    let key = stored.intern(&capability.digest());
    let actor = ActorContext::from(capability);
    assert_eq!(find_caller(&actor, &stored), Caller::Session { capability: Some(key) });
    let unknown = ActorContext::from(HostConnectionCapability::generate());
    assert_eq!(find_caller(&unknown, &stored), Caller::Host { capability: None });
    assert_eq!(find_caller(&ActorContext::Bootstrap, &stored), Caller::Bootstrap);
}

#[test]
fn names_keep_their_numbers() {
    let mut names = NameTable::new();
    assert_eq!(names.intern("a"), 0);
    assert_eq!(names.intern("b"), 1);
    assert_eq!(names.intern("a"), 0);
    assert_eq!(names.len(), 2);
    assert_eq!(names.name(1), Some("b"));
    assert_eq!(names.name(2), None);
    assert_eq!(names.find("c"), None);
}

#[test]
fn persisted_names_are_read_back() {
    for state in [TaskState::Queued, TaskState::DeliveryUnknown, TaskState::Approved] {
        assert_eq!(TaskState::from_str(state.as_str()).unwrap(), state);
    }
    assert_eq!(TaskState::DeliveryUnknown.as_str(), "delivery_unknown");
    assert!(TaskState::from_str("unheard").is_err());
    assert_eq!(delivery_intent_from_str("follow_up").unwrap(), DeliveryIntent::FollowUp);
    assert_eq!(task_role_from_str("review").unwrap(), TaskRole::Review);
    assert_eq!(kind_name(HarnessKind::Omp), "omp");
}

#[test]
fn texts_are_written() {
    assert_eq!(decimal_text(0), "0");
    assert_eq!(decimal_text(18_446_744_073_709_551_615), "18446744073709551615");
    assert_eq!(signed_text(-42), "-42");
    assert_eq!(trim(" \t a b \n"), "a b");
    assert!(is_blank(" \u{3000}\n"));
    assert!(!is_blank("."));
    assert_eq!(join_words(&vec!["a".to_owned(), "b".to_owned()], ", "), "a, b");
}

#[test]
fn paths_follow_their_components() {
    assert!(same_path("/a//b/./c/", "/a/b/c"));
    assert!(!same_path("a/b", "/a/b"));
    assert!(path_is_below("/repo/src/lib.rs", "/repo/src"));
    assert!(!path_is_below("/repo/srcs", "/repo/src"));
    assert_eq!(parent_of("/a/b/").as_deref(), Some("/a"));
    assert_eq!(parent_of("/a").as_deref(), Some("/"));
    assert_eq!(parent_of("a").as_deref(), Some(""));
    assert_eq!(parent_of("/"), None);
    assert_eq!(parent_of(""), None);
    assert_eq!(join_path("/a", "b"), "/a/b");
    assert_eq!(join_path("/a/", "b"), "/a/b");
    assert_eq!(join_path("/a", "/b"), "/b");
    assert_eq!(join_path("", "b"), "b");
    assert!(comes_before("a", "ab"));
    assert!(!comes_before("b", "ab"));
}

#[test]
fn cycles_are_found() {
    let edge = |task: u128, upstream: u128| DependencyRow {
        task: TaskId(task),
        upstream: TaskId(upstream),
        condition: DependencyCondition::Approved,
        policy: DependencyFailurePolicy::Cancel,
        satisfied: None,
        snapshot: None,
        bound: false,
    };
    let nodes = vec![TaskId(1), TaskId(2), TaskId(3)];
    assert!(validate_acyclic_task_graph(&nodes, &vec![edge(2, 1), edge(3, 2), edge(3, 1)]).is_ok());
    let cycle = validate_acyclic_task_graph(&nodes, &vec![edge(2, 1), edge(1, 3), edge(3, 2)]);
    assert_eq!(cycle.unwrap_err().category, ErrorCategory::InvalidInput);
    assert!(validate_acyclic_task_graph(&nodes, &vec![edge(1, 1)]).is_err());
}

#[test]
fn names_are_read_as_they_are_written() {
    for kind in [
        MessageKind::Question,
        MessageKind::Reply,
        MessageKind::Correction,
        MessageKind::Notification,
    ] {
        assert_eq!(message_kind_named(message_kind_name(kind)), Some(kind));
    }
    assert_eq!(message_kind_named("task"), None);
    for point in [
        ObservationCheckpoint::BeforeDispatch,
        ObservationCheckpoint::Result,
        ObservationCheckpoint::Cancel,
        ObservationCheckpoint::Failure,
        ObservationCheckpoint::Approval,
        ObservationCheckpoint::HoldClear,
    ] {
        assert_eq!(observation_checkpoint_named(observation_checkpoint_name(point)), Some(point));
    }
    assert_eq!(observation_checkpoint_named("later"), None);
    assert_eq!(presence_from_str("online").unwrap(), Presence::Online);
    assert_eq!(activity_from_str("stopping").unwrap(), Activity::Stopping);
    assert_eq!(lifecycle_named(AdapterLifecycle::Working.as_str()), Some(AdapterLifecycle::Working));
    assert_eq!(lifecycle_named("asleep"), None);
    assert_eq!(StoredMessageKind::Task.as_str(), "task");
    assert_eq!(AttemptState::Cancelled.as_str(), "cancelled");
    assert!(require_tier(HarnessTier::Supervisor).is_ok());
    assert_eq!(
        require_tier(HarnessTier::Worker).unwrap_err(),
        "managed Supervisor Host requires a Supervisor Session"
    );
}

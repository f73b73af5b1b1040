use herdr_coordinator::contract::{
    DeliveryIntent, HarnessKind, HarnessTier, MessageKind, ObservationCheckpoint,
    RepositoryAccess, SessionReusePolicy, SupervisorEventKind, TaskRole, TaskState,
};
use herdr_coordinator::identity::{
    AttachmentId, HarnessSessionId, HostConnectionId, MessageId, RepositoryObservationId,
    TaskId,
};
use herdr_coordinator::ledger::attention::SupervisorEventResolution;
use herdr_coordinator::ledger::binding::SessionReuseDecision;
use herdr_coordinator::ledger::connections::NewConnection;
use herdr_coordinator::ledger::create::NewTask;
use herdr_coordinator::ledger::dispatch::DispatchFacts;
use herdr_coordinator::ledger::events::Acceptance;
use herdr_coordinator::ledger::evidence::NewObservation;
use herdr_coordinator::ledger::execute::{Caller, CommandOutcome, CoordinatorCommand};
use herdr_coordinator::ledger::hosts::{HarnessCompatibilityEvidenceV1, NativeFindings};
use herdr_coordinator::ledger::messages::{NewMessage, NewResult};
use herdr_coordinator::ledger::notices::{write_event_summary, write_wording};
use herdr_coordinator::ledger::present::{
    present_event, present_graph, present_harness, present_hold, present_message, present_session,
    present_task,
};
use herdr_coordinator::ledger::query::{CoordinatorQuery, QueryRows};
use herdr_coordinator::ledger::sessions::NewHarness;
use herdr_coordinator::ledger::Ledger;
use herdr_coordinator::names::NameTable;
use herdr_coordinator::process_adapter::capabilities;
use herdr_coordinator::rows::{
    AttachmentRow, AttemptState, BindingReason, EventRow, HoldReason, TransitionReason, Wording,
};

const DIGEST: &str = "0123456789abcdef0123456789abcdef0123456789abcdef0123456789abcdef";
const NOW: u64 = 5_000_000;

struct Network {
    ledger: Ledger,
    texts: NameTable,
    harnesses: NameTable,
    roots: NameTable,
}

impl Network {
    fn caller(&self, bearer: &str) -> Caller {
        match bearer {
            "host" => Caller::Host { capability: self.texts.find("host") },
            other => Caller::Session { capability: self.texts.find(other) },
        }
    }

    fn give(&mut self, bearer: &str, command: CoordinatorCommand) -> CommandOutcome {
        let caller = self.caller(bearer);
        self.ledger.submit(&self.texts, caller, command, NOW).unwrap()
    }

    fn ask(&self, bearer: &str, query: CoordinatorQuery) -> QueryRows {
        self.ledger.query(self.caller(bearer), query, NOW).unwrap()
    }

    fn key(&mut self, text: &str) -> u64 {
        self.texts.intern(text)
    }

    fn harness(&mut self, name: &str, tier: HarnessTier, session: u128) -> NewHarness {
        NewHarness {
            key: self.harnesses.intern(name),
            tier,
            worktree: self.roots.intern("/work"),
            definition: self.texts.intern(&format!("{{\"id\":\"{name}\"}}")),
            model: None,
            session: HarnessSessionId(session),
            capability: self.texts.intern(name),
            source: Some(self.texts.intern("model = \"fast\"")),
        }
    }

    fn starting() -> Self {
        let mut network = Self {
            ledger: Ledger::new(),
            texts: NameTable::new(),
            harnesses: NameTable::new(),
            roots: NameTable::new(),
        };
        network.texts.intern("unused");
        let supervisor = network.harness("boss", HarnessTier::Supervisor, 10);
        network
            .ledger
            .execute(Caller::Bootstrap, CoordinatorCommand::RegisterSupervisor { supervisor }, NOW)
            .unwrap();
        let worker = network.harness("hand", HarnessTier::Worker, 20);
        let profile = network.key(DIGEST);
        network.give("boss", CoordinatorCommand::StartWorker { worker, profile, issued: false });
        let instance = network.key("pane 7");
        let capability = network.key("host");
        network.give(
            "hand",
            CoordinatorCommand::BindHostConnection {
                instance_id: "pane 7".to_owned(),
                connection: NewConnection {
                    id: HostConnectionId(30),
                    capability,
                    lease_seconds: 30,
                    instance,
                },
            },
        );
        network
    }

    fn new() -> Self {
        let mut network = Self::starting();
        network.give("host", CoordinatorCommand::RecordHostReady);
        network
    }

    fn file(&mut self, id: u128, name: &str) -> AttachmentRow {
        AttachmentRow {
            id: AttachmentId(id),
            digest: self.key(DIGEST),
            size_bytes: 12,
            media_type: self.key("text/plain"),
            original_name: self.key(name),
            storage_path: self.key(&format!("attachments/{name}")),
        }
    }

    fn bring(&mut self, id: u128, name: &str) -> AttachmentRow {
        let attachment = self.file(id, name);
        let admitted = self.give(
            "boss",
            CoordinatorCommand::AdmitAttachment {
                attachment,
                media_type: "text/plain".to_owned(),
                original_name: name.to_owned(),
            },
        );
        assert_eq!(admitted, CommandOutcome::AttachmentAdmitted { attachment });
        attachment
    }

    fn create(&mut self, id: u128, attachments: Vec<AttachmentId>) {
        let submission = self.key(&format!("{{\"instructions\":\"task {id}\"}}"));
        let payload = self.key("payload");
        let worktree = self.roots.intern("/work");
        let worker = self.harnesses.find("hand").unwrap();
        self.give(
            "boss",
            CoordinatorCommand::CreateTask {
                request_key: None,
                payload,
                task: NewTask {
                    id: TaskId(id),
                    message: MessageId(id + 1000),
                    worker,
                    related: None,
                    role: TaskRole::Implementation,
                    policy: SessionReusePolicy::Prefer,
                    preferred_session: None,
                    access: RepositoryAccess::Mutating,
                    worktree,
                    canonical_root: worktree,
                    submission,
                },
                depends_on: Vec::new(),
                attachments,
            },
        );
    }

    fn facts(&mut self, id: u128, reusable: bool) -> DispatchFacts {
        DispatchFacts {
            policy: SessionReusePolicy::Prefer,
            decision: SessionReuseDecision {
                reusable,
                effective_policy: SessionReusePolicy::Prefer,
                reason_code: "idle".to_owned(),
                reason: "the Session is idle".to_owned(),
                code: self.key("idle"),
                words: self.key("the Session is idle"),
            },
            captured: Ok(self.observation(id * 100)),
            lock: None,
        }
    }

    fn observation(&mut self, id: u128) -> NewObservation {
        NewObservation {
            id: RepositoryObservationId(id),
            digest: self.key(DIGEST),
            content: self.key("snapshot"),
            out_of_scope: false,
        }
    }

    fn dispatch(&mut self, id: u128) -> MessageId {
        let facts = self.facts(id, true);
        match self.give("boss", CoordinatorCommand::DispatchTask { task_id: TaskId(id), facts }) {
            CommandOutcome::TaskDispatching { message_id, .. } => message_id,
            other => panic!("{other:?}"),
        }
    }

    fn start(&mut self, id: u128) {
        let message_id = self.dispatch(id);
        let correlation = self.key("turn-a");
        self.give(
            "host",
            CoordinatorCommand::AcceptDelivery {
                message_id,
                native_correlation: "turn-a".to_owned(),
                correlation,
            },
        );
    }

    fn say(&mut self, bearer: &str, to: &str, kind: MessageKind, id: u128, text: &str, files: Vec<AttachmentId>) {
        let message = NewMessage {
            id: MessageId(id),
            task: Some(TaskId(1)),
            to: self.harnesses.find(to).unwrap(),
            kind,
            reply_to: if kind == MessageKind::Reply { Some(MessageId(50)) } else { None },
            delivery: DeliveryIntent::FollowUp,
            body: self.key(&format!("{{\"text\":\"{text}\"}}")),
            text: self.key(text),
        };
        let payload = self.key("payload");
        self.give(
            bearer,
            CoordinatorCommand::SendMessage {
                request_key: None,
                payload,
                message,
                attachments: files,
            },
        );
    }

    fn last_event(&self) -> EventRow {
        *self.ledger.events.last().unwrap()
    }

    fn summary(&self, event: EventRow) -> String {
        write_event_summary(&self.texts, event).unwrap()
    }

    fn complete(&mut self, id: u128) {
        let result = NewResult {
            task: TaskId(id),
            turn: self.key("turn-a"),
            manifest: self.key("{\"summary\":\"done\"}"),
            summary: self.key("done"),
            snapshot: self.file(900 + id, "result.json"),
        };
        let recorded = self.give(
            "host",
            CoordinatorCommand::CompleteTask {
                native_turn_id: "turn-a".to_owned(),
                result,
                attachments: vec![AttachmentId(1)],
                verification: vec![AttachmentId(2)],
            },
        );
        assert_eq!(recorded, CommandOutcome::ResultRecorded { task_id: TaskId(id), revision: 1 });
    }

    fn end_turn(&mut self, id: u128) {
        let turn = self.key("turn-a");
        let captured = Ok(self.observation(id * 100 + 1));
        self.give(
            "host",
            CoordinatorCommand::RecordTurnCompleted {
                task_id: TaskId(id),
                turn,
                succeeded: true,
                captured,
                message_id: MessageId(id + 2000),
            },
        );
    }
}

#[test]
fn inboxes_show_messages_as_they_were_sent() {
    let mut network = Network::new();
    network.bring(1, "plan.txt");
    network.create(1, Vec::new());
    network.start(1);
    network.say("host", "boss", MessageKind::Question, 50, "which one?", vec![AttachmentId(1)]);
    let rows = match network.ask("boss", CoordinatorQuery::Inbox) {
        QueryRows::Inbox(rows) => rows,
        other => panic!("{other:?}"),
    };
    let shown = rows.last().unwrap();
    assert_eq!(shown.message.id, MessageId(50));
    assert_eq!(network.texts.name(shown.message.body), Some("{\"text\":\"which one?\"}"));
    assert_eq!(shown.delivery, Some(AttemptState::Pending));
    let view = present_message(&network.texts, &network.harnesses, *shown).unwrap();
    assert_eq!(view.body, "{\"text\":\"which one?\"}");
    assert_eq!(view.sender_id.as_str(), "hand");
    assert_eq!(view.kind, "question");
    assert_eq!(view.delivery_state.as_deref(), Some("pending"));
    network.say("boss", "hand", MessageKind::Reply, 51, "the first", Vec::new());
    match network.ask("hand", CoordinatorQuery::Inbox) {
        QueryRows::Inbox(rows) => {
            let body = rows.last().unwrap().message.body;
            assert_eq!(network.texts.name(body), Some("{\"text\":\"the first\"}"));
        }
        other => panic!("{other:?}"),
    }
}

#[test]
fn questions_reach_the_supervisor_in_their_own_words() {
    let mut network = Network::new();
    network.bring(1, "plan.txt");
    network.create(1, Vec::new());
    network.start(1);
    network.say("host", "boss", MessageKind::Question, 50, "which one?", vec![AttachmentId(1)]);
    let event = network.last_event();
    assert_eq!(event.kind, SupervisorEventKind::BlockingQuestion);
    assert_eq!(network.summary(event), "which one?");
    assert_eq!(network.ledger.event_attachments(event), vec![AttachmentId(1)]);
    let claimed = network.give("boss", CoordinatorCommand::ClaimNextSupervisorEvent);
    match claimed {
        CommandOutcome::SupervisorEventClaimed { event: Some(claimed) } => {
            assert_eq!(claimed.id, event.id);
            assert_eq!(network.summary(claimed), "which one?");
        }
        other => panic!("{other:?}"),
    }
}

#[test]
fn results_reach_the_supervisor_as_submitted() {
    let mut network = Network::new();
    network.bring(1, "notes.txt");
    network.bring(2, "test.log");
    network.create(1, vec![AttachmentId(2)]);
    network.start(1);
    network.complete(1);
    let again = network.file(902, "again.json");
    let repeated = CoordinatorCommand::CompleteTask {
        native_turn_id: "turn-a".to_owned(),
        result: NewResult {
            task: TaskId(1),
            turn: network.key("turn-a"),
            manifest: network.key("other"),
            summary: network.key("other"),
            snapshot: again,
        },
        attachments: Vec::new(),
        verification: Vec::new(),
    };
    let caller = network.caller("host");
    let error = network.ledger.submit(&network.texts, caller, repeated, NOW).unwrap_err();
    assert!(error.message.starts_with("a Result is already recorded"));
    assert_eq!(network.ledger.find_attachment(AttachmentId(902)), Some(again));
    network.end_turn(1);
    let sent = *network.ledger.messages.last().unwrap();
    assert_eq!(sent.id, MessageId(2001));
    assert_eq!(network.texts.name(sent.body), Some("{\"summary\":\"done\"}"));
    let event = network.last_event();
    assert_eq!(event.kind, SupervisorEventKind::ResultReady);
    match network.ask("boss", CoordinatorQuery::SupervisorEvents) {
        QueryRows::SupervisorEvents(mut rows) => {
            let row = rows.pop().unwrap();
            assert_eq!(row.attachments, vec![AttachmentId(1)]);
            let view = present_event(&network.texts, row, "today".to_owned()).unwrap();
            assert_eq!(view.summary, "done");
            assert_eq!(view.source_message_id, Some(MessageId(2001)));
            assert_eq!(view.result_revision, Some(1));
            assert_eq!(view.created_at, "today");
        }
        other => panic!("{other:?}"),
    }
}

#[test]
fn attachments_are_read_back_whole() {
    let mut network = Network::new();
    let first = network.bring(1, "plan.txt");
    let second = network.bring(2, "notes.txt");
    for row in [first, second] {
        match network.ask("hand", CoordinatorQuery::GetAttachment { attachment_id: row.id }) {
            QueryRows::Attachment(found) => assert_eq!(found, row),
            other => panic!("{other:?}"),
        }
    }
    network.create(1, vec![AttachmentId(2), AttachmentId(1)]);
    match network.ask("host", CoordinatorQuery::ResolvedTaskInput { task_id: TaskId(1) }) {
        QueryRows::ResolvedTaskInput(input) => {
            assert_eq!(input.explicit_attachments, vec![AttachmentId(2), AttachmentId(1)]);
        }
        other => panic!("{other:?}"),
    }
    let root = *network.ledger.messages.last().unwrap();
    assert_eq!(network.texts.name(root.body), Some("{\"instructions\":\"task 1\"}"));
    let kept = network.ledger.get_task(TaskId(1)).unwrap().task.submission;
    assert_eq!(kept, root.body);
}

#[test]
fn doubts_keep_their_diagnostic() {
    let mut network = Network::new();
    network.create(1, Vec::new());
    let message_id = network.dispatch(1);
    let key = network.key("no answer");
    network.give(
        "host",
        CoordinatorCommand::MarkDeliveryUnknown {
            message_id,
            diagnostic: "no answer".to_owned(),
            key,
        },
    );
    let attempt = *network.ledger.attempts.last().unwrap();
    assert_eq!(write_wording(&network.texts, attempt.doubt.unwrap()).unwrap(), "no answer");
    let event = network
        .ledger
        .events
        .iter()
        .find(|event| event.kind == SupervisorEventKind::DeliveryUnknown)
        .copied()
        .unwrap();
    assert_eq!(network.summary(event), "no answer");
    let captured = Ok(network.observation(140));
    let recorded = network.give(
        "boss",
        CoordinatorCommand::CaptureRepositoryObservation {
            task_id: TaskId(1),
            checkpoint: ObservationCheckpoint::HoldClear,
            captured,
        },
    );
    let digest = network.texts.find(DIGEST).unwrap();
    assert_eq!(recorded, CommandOutcome::ObservationRecorded { task_id: TaskId(1), digest });
    let note = network.key("looked at it");
    network.give(
        "boss",
        CoordinatorCommand::ResolveDeliveryUnknown {
            task_id: TaskId(1),
            resolution: herdr_coordinator::ledger::reconcile::DeliveryUnknownResolution::Cancel,
            observation_digest: DIGEST.to_owned(),
            digest,
            audit_note: "looked at it".to_owned(),
            note,
            drift: None,
        },
    );
    assert_eq!(network.ledger.holds[0].note, Some(note));
}

#[test]
fn blocked_sessions_are_told_as_refused() {
    let mut network = Network::new();
    network.create(1, Vec::new());
    let facts = network.facts(1, false);
    let answer = network.give("host", CoordinatorCommand::ClaimNextTask { facts });
    assert!(matches!(answer, CommandOutcome::NoTaskAvailable));
    assert_eq!(
        network.summary(network.last_event()),
        "Session selection blocked: the Session is idle (idle)"
    );
}

#[test]
fn decisions_about_events_are_recorded() {
    let mut network = Network::new();
    network.bring(1, "notes.txt");
    network.bring(2, "test.log");
    network.create(1, Vec::new());
    network.start(1);
    network.complete(1);
    network.end_turn(1);
    let event = network.last_event();
    network.give("boss", CoordinatorCommand::ClaimNextSupervisorEvent);
    let key = network.key("pipe closed");
    network.give(
        "boss",
        CoordinatorCommand::MarkSupervisorEventUnknown {
            event_id: event.id,
            diagnostic: "pipe closed".to_owned(),
            key,
        },
    );
    let attempt = *network.ledger.event_attempts.last().unwrap();
    assert_eq!(attempt.doubt, Some(Wording::Given { text: key }));
    let note = network.key("try again");
    network.give(
        "boss",
        CoordinatorCommand::ReconcileSupervisorEvent {
            event_id: event.id,
            resolution: SupervisorEventResolution::Retry,
            audit_note: "try again".to_owned(),
            note,
        },
    );
    let record = network.ledger.reconciliations[0];
    assert_eq!(record.event, event.id);
    assert_eq!(record.attempt, Some(attempt.id));
    assert_eq!(record.resolution, SupervisorEventResolution::Retry);
    assert_eq!(record.note, note);
    network.give("boss", CoordinatorCommand::ClaimNextSupervisorEvent);
    let said = Acceptance {
        correlation: network.key("native-9"),
        turn: None,
        evidence: network.key("presented"),
    };
    network.give(
        "boss",
        CoordinatorCommand::AcceptSupervisorEvent {
            event_id: event.id,
            native_correlation: "native-9".to_owned(),
            evidence: "presented".to_owned(),
            said,
        },
    );
    let accepted = *network.ledger.event_attempts.last().unwrap();
    assert_eq!(accepted.correlation, Some(said.correlation));
    assert_eq!(accepted.evidence, Some(said.evidence));
}

#[test]
fn failed_hosts_say_why() {
    let mut network = Network::new();
    network.create(1, Vec::new());
    network.start(1);
    let key = network.key("killed");
    let captured = Ok(network.observation(150));
    network.give(
        "host",
        CoordinatorCommand::RecordHostFailed { diagnostic: "killed".to_owned(), key, captured },
    );
    let why = Wording::Given { text: key };
    assert_eq!(network.ledger.connections[0].reason, Some(why));
    assert!(network.ledger.transitions.iter().any(|row| row.task == TaskId(1)
        && row.to == TaskState::Failed
        && row.reason == TransitionReason::HostFailure { why }));
    assert_eq!(network.texts.name(network.ledger.connections[0].instance), Some("pane 7"));
    let hold = network.ledger.active_holds()[0];
    let view = present_hold(&network.roots, hold).unwrap();
    assert_eq!(hold.reason, HoldReason::WorkerHostFailed);
    assert_eq!((view.reason.as_str(), view.repository_key.as_str()), ("worker_host_failed", "/work"));
}

#[test]
fn sessions_show_what_they_were_started_with() {
    let network = Network::new();
    let (session, definition) = match network.ask("host", CoordinatorQuery::SessionSelf) {
        QueryRows::SessionSelf(session, definition) => (session, definition),
        other => panic!("{other:?}"),
    };
    let view = present_session(&network.texts, session, definition).unwrap();
    assert_eq!(view.session_id, HarnessSessionId(20));
    assert_eq!(view.definition, "{\"id\":\"hand\"}");
    assert_eq!(view.profile_snapshot.as_deref(), Some("model = \"fast\""));
    assert_eq!(view.profile_digest.as_deref(), Some(DIGEST));
    assert_eq!(view.native_session_id, None);
    assert_eq!((view.presence.as_str(), view.activity.as_str()), ("online", "idle"));
    assert!(present_session(&NameTable::new(), session, definition).is_none());
    match network.ask("boss", CoordinatorQuery::HarnessStatus) {
        QueryRows::HarnessStatus(rows) => {
            let shown = present_harness(&network.harnesses, rows[1]).unwrap();
            assert_eq!(shown.id.as_str(), "hand");
            assert_eq!(shown.presence, "online");
        }
        other => panic!("{other:?}"),
    }
}

#[test]
fn tasks_show_why_their_session_was_chosen() {
    let mut network = Network::new();
    network.create(1, Vec::new());
    network.start(1);
    let row = match network.ask("boss", CoordinatorQuery::GetTask { task_id: TaskId(1) }) {
        QueryRows::Task(row) => row,
        other => panic!("{other:?}"),
    };
    assert!(matches!(row.binding.unwrap().reason, BindingReason::Evaluated { .. }));
    let view = present_task(&network.texts, &network.harnesses, row).unwrap();
    assert_eq!(view.worker_id.as_str(), "hand");
    assert_eq!(view.session_decision_reason.as_deref(), Some("the Session is idle"));
    assert_eq!(view.harness_session_id, Some(HarnessSessionId(20)));
    assert_eq!(view.context_percent, None);
    match network.ask("boss", CoordinatorQuery::TaskGraph) {
        QueryRows::TaskGraph(rows) => {
            let shown = present_graph(&network.texts, &network.harnesses, &rows[0]).unwrap();
            assert_eq!(shown.task.id, TaskId(1));
            assert!(shown.dependencies.is_empty() && shown.dependents.is_empty());
            assert_eq!(shown.worker_queue_position, None);
        }
        other => panic!("{other:?}"),
    }
}

#[test]
fn stored_contents_outlive_later_commands() {
    let mut network = Network::new();
    network.bring(1, "notes.txt");
    network.bring(2, "test.log");
    network.create(1, vec![AttachmentId(1)]);
    network.start(1);
    network.say("host", "boss", MessageKind::Question, 50, "which one?", Vec::new());
    let (message, event) = (*network.ledger.messages.last().unwrap(), network.last_event());
    network.say("boss", "hand", MessageKind::Reply, 51, "the first", Vec::new());
    network.give("boss", CoordinatorCommand::MarkInboxRead { message_ids: vec![MessageId(50)] });
    network.give("boss", CoordinatorCommand::CancelTask { task_id: TaskId(1) });
    assert!(network.ledger.messages.contains(&message));
    let kept = network.ledger.events.iter().find(|row| row.id == event.id).unwrap();
    assert_eq!(kept.summary, event.summary);
    assert_eq!(network.ledger.find_attachment(AttachmentId(1)).unwrap().size_bytes, 12);
    let known = |id: MessageId| network.ledger.messages.iter().any(|row| row.id == id);
    assert!(network.ledger.reads.iter().all(|row| known(row.message)));
    assert!(network.ledger.events.iter().all(|row| row.message.is_none_or(known)));
    assert!(!known(MessageId(77)));
}

#[test]
fn findings_of_a_host_are_kept() {
    let mut network = Network::starting();
    let found = NativeFindings {
        executable: network.key("/usr/bin/codex"),
        version: network.key("codex 1.2"),
        evidence: network.key("{\"checks\":[\"initialize\"]}"),
        native_session: None,
        native_thread: Some(network.key("thread-3")),
        model: Some(network.key("fast")),
        safe_compaction: true,
    };
    let report = |executable: &str| CoordinatorCommand::RecordHostCompatibility {
        resolved_executable: executable.to_owned(),
        observed_version: "codex 1.2".to_owned(),
        found,
        evidence: HarnessCompatibilityEvidenceV1 {
            schema_version: 1,
            kind: HarnessKind::Codex,
            capabilities: capabilities(HarnessKind::Codex),
            successful_checks: vec!["initialize".to_owned()],
        },
        size: 25,
    };
    let caller = network.caller("host");
    let error = network.ledger.submit(&network.texts, caller, report("/bin/other"), NOW).unwrap_err();
    assert_eq!(error.message, "command text is not interned");
    network.give("host", report("/usr/bin/codex"));
    let (session, definition) = match network.ask("host", CoordinatorQuery::SessionSelf) {
        QueryRows::SessionSelf(session, definition) => (session, definition),
        other => panic!("{other:?}"),
    };
    assert_eq!(session.executable, Some(found.executable));
    assert_eq!(session.version, Some(found.version));
    assert_eq!(session.compatibility, Some(found.evidence));
    let view = present_session(&network.texts, session, definition).unwrap();
    assert_eq!(view.native_thread_id.as_deref(), Some("thread-3"));
}

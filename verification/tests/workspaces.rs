use herdr_coordinator::activation::registry::{ActivationRegistry, ActivationRow};
use herdr_coordinator::activation::{
    desired_from_str, ensure_safe_to_disable, key_of, runtime_from_str, selection_schema_version,
    validate_selection, ActivationError, ActivationRuntime, CanonicalRoot, DesiredActivation,
    SetActivationRequest, SupervisorSelection, WorkerSelection, WorkspaceIdentity,
    WorkspaceSelection,
};
use herdr_coordinator::contract::{CodexApprovalPolicy, CodexSandboxMode, HarnessKind};
use herdr_coordinator::digest::digest_text;
use herdr_coordinator::identity::HarnessId;
use herdr_coordinator::ledger::Ledger;
use herdr_coordinator::workspace::{
    line_of, report_activation, require_private, step_after_set, supervisor_pane,
    workspace_selection, workspace_socket, WorkspaceStep,
};

fn root(path: &str) -> CanonicalRoot {
    CanonicalRoot::Directory { path: path.to_owned() }
}

fn identity(name: &str) -> WorkspaceIdentity {
    WorkspaceIdentity::new("/run/herdr.sock".to_owned(), name.to_owned(), "/repo".to_owned())
}

fn selection(model: &str) -> WorkspaceSelection {
    WorkspaceSelection {
        schema_version: selection_schema_version(),
        supervisor: SupervisorSelection {
            kind: HarnessKind::Omp,
            model: model.to_owned(),
            reasoning_effort: None,
            codex_approval_policy: None,
            codex_sandbox_mode: None,
        },
        workers: vec![WorkerSelection {
            worker_id: HarnessId("w1".to_owned()),
            profile_id: HarnessId("p1".to_owned()),
        }],
    }
}

fn switch(desired: DesiredActivation, selection: Option<WorkspaceSelection>) -> SetActivationRequest {
    SetActivationRequest { desired, expected_revision: None, selection }
}

fn registry() -> ActivationRegistry {
    ActivationRegistry::open("/state".to_owned(), Vec::new()).unwrap()
}

#[test]
fn an_unknown_workspace_is_off() {
    let view = registry().get(&identity("wF"), root("/repo")).unwrap();
    assert_eq!(view.desired, DesiredActivation::Off);
    assert_eq!(view.runtime, ActivationRuntime::Offline);
    assert_eq!(view.revision, 0);
    let key = digest_text("/run/herdr.sock\0wF");
    assert_eq!(key_of("/run/herdr.sock", "wF"), key);
    assert_eq!(view.state_dir, format!("/state/workspaces/{key}"));
}

#[test]
fn enabling_is_idempotent_and_disabling_keeps_the_selection() {
    let mut registry = registry();
    let refused = registry.set(
        &identity("wF"),
        root("/repo"),
        switch(DesiredActivation::On, None),
        Ok(()),
    );
    assert!(matches!(refused, Err(ActivationError::SelectionRequired)));
    let on = registry
        .set(
            &identity("wF"),
            root("/repo"),
            switch(DesiredActivation::On, Some(selection("m"))),
            Ok(()),
        )
        .unwrap();
    assert_eq!(on.revision, 1);
    assert_eq!(on.runtime, ActivationRuntime::ReactivationRequired);
    let again = registry
        .set(
            &identity("wF"),
            root("/repo"),
            switch(DesiredActivation::On, Some(selection("m"))),
            Ok(()),
        )
        .unwrap();
    assert_eq!(again.revision, 1);
    let off = registry
        .set(&identity("wF"), root("/repo"), switch(DesiredActivation::Off, None), Ok(()))
        .unwrap();
    assert_eq!(off.revision, 2);
    assert_eq!(off.selection.as_ref().unwrap().supervisor.model, "m");
    let on = registry
        .set(&identity("wF"), root("/repo"), switch(DesiredActivation::On, None), Ok(()))
        .unwrap();
    assert_eq!(on.revision, 3);
    assert_eq!(registry.list().len(), 1);
}

#[test]
fn stale_revisions_are_refused() {
    let mut registry = registry();
    let request = |expected: u64, model: &str| SetActivationRequest {
        desired: DesiredActivation::On,
        expected_revision: Some(expected),
        selection: Some(selection(model)),
    };
    registry.set(&identity("wF"), root("/repo"), request(0, "a"), Ok(())).unwrap();
    match registry.set(&identity("wF"), root("/repo"), request(0, "b"), Ok(())) {
        Err(error) => {
            assert_eq!(
                error.text(),
                "workspace activation revision conflict: expected 0, actual 1"
            );
        }
        other => panic!("{other:?}"),
    }
}

#[test]
fn a_root_has_one_enabled_workspace() {
    let mut registry = registry();
    let on = |model: &str| switch(DesiredActivation::On, Some(selection(model)));
    registry.set(&identity("wF"), root("/repo"), on("m"), Ok(())).unwrap();
    let rival = registry.set(&identity("wG"), root("/repo"), on("m"), Ok(())).unwrap_err();
    assert_eq!(rival.text(), "repository `/repo` is already enabled by workspace `wF`");
    registry.set(&identity("wG"), root("/other"), on("m"), Ok(())).unwrap();
    registry.set(&identity("wA"), root("/third"), on("m"), Ok(())).unwrap();
    let names: Vec<String> = registry.list().into_iter().map(|view| view.workspace_id).collect();
    assert_eq!(names, vec!["wA".to_owned(), "wF".to_owned(), "wG".to_owned()]);
    let moved = registry.get(&identity("wG"), root("/repo")).unwrap_err();
    assert_eq!(moved.text(), "workspace `wG` is already bound to a different repository root");
}

#[test]
fn busy_workspaces_stay_on() {
    let mut registry = registry();
    registry
        .set(
            &identity("wF"),
            root("/repo"),
            switch(DesiredActivation::On, Some(selection("m"))),
            Ok(()),
        )
        .unwrap();
    let refused = registry.set(
        &identity("wF"),
        root("/repo"),
        switch(DesiredActivation::Off, None),
        Err(ActivationError::WorkspaceBusy("a Worker Harness is busy".to_owned())),
    );
    assert_eq!(
        refused.unwrap_err().text(),
        "workspace cannot be disabled while a Worker Harness is busy"
    );
    assert!(ensure_safe_to_disable(&Ledger::new()).is_ok());
}

#[test]
fn runtime_outcomes_are_recorded() {
    let mut registry = registry();
    let missing = registry.record_runtime(
        &identity("wF"),
        root("/repo"),
        ActivationRuntime::Online,
        None,
    );
    assert!(matches!(
        missing,
        Err(ActivationError::RevisionConflict { expected: 0, actual: 0 })
    ));
    let on = registry
        .set(
            &identity("wF"),
            root("/repo"),
            switch(DesiredActivation::On, Some(selection("m"))),
            Ok(()),
        )
        .unwrap();
    let online = registry
        .record_runtime(
            &identity("wF"),
            root("/repo"),
            ActivationRuntime::RecoveryRequired,
            Some("no pane".to_owned()),
        )
        .unwrap();
    assert_eq!(online.revision, 2);
    assert_eq!(online.runtime, ActivationRuntime::RecoveryRequired);
    assert_eq!(online.diagnostic.as_deref(), Some("no pane"));
    let found = registry.find_by_state_dir(&on.state_dir).unwrap().unwrap();
    assert_eq!(found.revision, 2);
    assert!(registry.find_by_state_dir("/nowhere").unwrap().is_none());
    let long = registry.record_runtime(
        &identity("wF"),
        root("/repo"),
        ActivationRuntime::Online,
        Some("x".repeat(16_385)),
    );
    assert_eq!(
        long.unwrap_err().text(),
        "workspace activation storage failure: activation diagnostic exceeds 16 KiB"
    );
}

#[test]
fn identities_are_checked() {
    let registry = registry();
    let blank = registry.get(&identity(" "), root("/repo")).unwrap_err();
    assert_eq!(blank.text(), "invalid workspace identity: workspace ID is missing or too long");
    let long = registry.get(&identity(&"w".repeat(257)), root("/repo")).unwrap_err();
    assert!(matches!(long, ActivationError::InvalidIdentity(_)));
    let file = registry.get(&identity("wF"), CanonicalRoot::NoDirectory).unwrap_err();
    assert_eq!(file.text(), "invalid workspace identity: repository root is not a directory");
    let gone = registry
        .get(&identity("wF"), CanonicalRoot::Unreachable { error: "gone".to_owned() })
        .unwrap_err();
    assert_eq!(gone.text(), "workspace activation storage failure: gone");
    let nameless =
        WorkspaceIdentity::new(String::new(), "wF".to_owned(), "/repo".to_owned());
    assert_eq!(nameless.session_socket(), "");
    let nameless = registry.get(&nameless, root("/repo")).unwrap_err();
    assert_eq!(nameless.text(), "invalid workspace identity: Herdr session socket is missing");
}

#[test]
fn stored_rows_meet_the_constraints_of_their_table() {
    let row = |name: &str, revision: u64, path: &str| ActivationRow {
        session_socket: "/run/herdr.sock".to_owned(),
        workspace_id: name.to_owned(),
        canonical_root: path.to_owned(),
        revision,
        desired: DesiredActivation::On,
        runtime: ActivationRuntime::Online,
        selection: Some(selection("m")),
        diagnostic: None,
        state_dir: format!("/state/workspaces/{name}"),
    };
    let open = |rows: Vec<ActivationRow>| ActivationRegistry::open("/state".to_owned(), rows);
    assert!(open(vec![row("a", 1, "/x"), row("b", 1, "/y")]).is_ok());
    assert!(open(vec![row("b", 1, "/x"), row("a", 1, "/y")]).is_err());
    assert!(open(vec![row("a", 1, "/x"), row("b", 1, "/x")]).is_err());
    assert!(open(vec![row("a", 0, "/x")]).is_err());
}

#[test]
fn selections_are_validated() {
    let refusal = |s: &WorkspaceSelection| validate_selection(s).unwrap_err().text();
    assert!(validate_selection(&selection("m")).is_ok());
    assert!(refusal(&selection(" ")).ends_with("Supervisor model is empty"));
    let mut old = selection("m");
    old.schema_version = 2;
    assert!(refusal(&old).ends_with("selection schema_version must equal 1"));
    let mut codex = selection("m");
    codex.supervisor.kind = HarnessKind::Codex;
    assert!(refusal(&codex)
        .ends_with("Codex Supervisor requires explicit approval and sandbox policies"));
    codex.supervisor.codex_approval_policy = Some(CodexApprovalPolicy::OnRequest);
    codex.supervisor.codex_sandbox_mode = Some(CodexSandboxMode::WorkspaceWrite);
    assert!(validate_selection(&codex).is_ok());
    codex.supervisor.kind = HarnessKind::Omp;
    assert!(refusal(&codex).ends_with("Codex Supervisor policies require a Codex Supervisor"));
    let mut alone = selection("m");
    alone.workers.clear();
    assert!(refusal(&alone).ends_with("at least one Worker is required"));
    let mut twice = selection("m");
    twice.workers.push(WorkerSelection {
        worker_id: HarnessId("w1".to_owned()),
        profile_id: HarnessId("p2".to_owned()),
    });
    assert!(refusal(&twice).ends_with("Worker IDs must be unique"));
}

#[test]
fn activation_names_are_read_back() {
    assert_eq!(desired_from_str("on").unwrap(), DesiredActivation::On);
    assert_eq!(DesiredActivation::Off.as_str(), "off");
    assert_eq!(
        desired_from_str("maybe").unwrap_err().text(),
        "workspace activation storage failure: unknown desired state `maybe`"
    );
    assert_eq!(
        runtime_from_str("reactivation_required").unwrap(),
        ActivationRuntime::ReactivationRequired
    );
    assert_eq!(ActivationRuntime::RecoveryRequired.as_str(), "recovery_required");
    assert!(runtime_from_str("asleep").is_err());
}

#[test]
fn options_make_a_selection() {
    let workers = vec!["w1=p1".to_owned(), "w2=a=b".to_owned()];
    let made = workspace_selection(
        Some(HarnessKind::Codex),
        Some("m".to_owned()),
        Some("high".to_owned()),
        &workers,
    )
    .unwrap()
    .unwrap();
    assert_eq!(made.schema_version, 1);
    assert_eq!(made.workers[1].worker_id.as_str(), "w2");
    assert_eq!(made.workers[1].profile_id.as_str(), "a=b");
    assert!(workspace_selection(None, None, None, &Vec::new()).unwrap().is_none());
    assert_eq!(
        workspace_selection(None, Some("m".to_owned()), None, &Vec::new()).unwrap_err(),
        "--supervisor-kind is required when changing selection"
    );
    assert_eq!(
        workspace_selection(Some(HarnessKind::Omp), None, None, &workers).unwrap_err(),
        "--supervisor-model is required when changing selection"
    );
    assert_eq!(
        workspace_selection(
            Some(HarnessKind::Omp),
            Some("m".to_owned()),
            None,
            &vec!["w1".to_owned()],
        )
        .unwrap_err(),
        "--worker must use worker-id=profile-id"
    );
}

#[test]
fn sockets_have_short_names() {
    let digest = "0123456789abcdef0123456789abcdef0123456789abcdef0123456789abcdef";
    assert_eq!(
        workspace_socket(&format!("/state/workspaces/{digest}")).unwrap(),
        "/state/s/0123456789abcdef01234567.sock"
    );
    assert_eq!(workspace_socket("/state/workspaces/short").unwrap(), "/state/s/short.sock");
    assert_eq!(
        workspace_socket("/").unwrap_err(),
        "workspace state directory has no digest name"
    );
    assert_eq!(
        workspace_socket("/x").unwrap_err(),
        "workspace state directory has no plugin root"
    );
}

#[test]
fn views_are_reported() {
    let mut registry = registry();
    let view = registry.get(&identity("wF"), root("/repo")).unwrap();
    assert_eq!(
        report_activation(&view),
        "Workspace wF: Off (Offline), revision 0\nRepository: /repo\nFirst setup: workspace set on --supervisor-kind KIND --supervisor-model MODEL --worker ID=PROFILE\n"
    );
    let view = registry
        .set(
            &identity("wF"),
            root("/repo"),
            switch(DesiredActivation::On, Some(selection("m"))),
            Ok(()),
        )
        .unwrap();
    assert_eq!(line_of(&view), "wF\tOn\tReactivationRequired\trevision 1\t/repo");
    assert_eq!(step_after_set(view.desired, view.runtime), WorkspaceStep::Activate);
    assert_eq!(
        step_after_set(DesiredActivation::Off, view.runtime),
        WorkspaceStep::Deactivate
    );
    assert_eq!(
        step_after_set(DesiredActivation::On, ActivationRuntime::Online),
        WorkspaceStep::Report
    );
    assert!(require_private(0o100_600).is_ok());
    assert!(require_private(0o100_640).is_err());
    let pane = supervisor_pane("bearer", &view, "/s.sock", "/bin/c");
    assert!(pane.focus);
    assert_eq!(pane.env[0], ("HERDR_COORDINATOR_BIN".to_owned(), "/bin/c".to_owned()));
    assert_eq!(pane.env[3], ("HERDR_SUPERVISOR_CAPABILITY".to_owned(), "bearer".to_owned()));
}

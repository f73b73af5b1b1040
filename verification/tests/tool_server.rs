use herdr_coordinator::activation::{
    ActivationRuntime, DesiredActivation, SupervisorSelection, WorkerSelection,
    WorkspaceActivationView, WorkspaceSelection,
};
use herdr_coordinator::contract::{HarnessKind, HarnessTier};
use herdr_coordinator::error::{CoordinatorError, ErrorCategory};
use herdr_coordinator::identity::HarnessId;
use herdr_coordinator::ledger::query::CoordinatorQuery;
use herdr_coordinator::mcp::{
    answer, coordinator_bridge, from_bearer, from_bearer_for_workspace, from_host_bearer,
    from_host_bearer_for_workspace, method_not_found, plugin_config_dir, read_frame, read_tool_call, route, select_worker,
    tool_result, validate_inline_attachment, verify_required_worker_tools, AnswerBody, BrokerResponse, Method,
    MAX_FRAME_BYTES,
};
use herdr_coordinator::mcp_tools::{find_tool, host_tools, omp_host_tools, Tool, ToolOperation, TOOLS};

const BEARER: &str = "0123456789abcdef0123456789abcdef0123456789abcdef0123456789abcdef";

fn value(text: &str) -> serde_json::Value {
    serde_json::from_str(text).unwrap()
}

#[test]
fn frames_are_bounded_documents() {
    assert_eq!(read_frame(b"{\"id\":1}\n").unwrap(), value("{\"id\":1}"));
    assert_eq!(read_frame(b"{").unwrap_err().code, -32700);
    let long = vec![b' '; MAX_FRAME_BYTES + 1];
    let error = read_frame(&long).unwrap_err();
    assert_eq!(error.code, -32600);
    assert_eq!(error.message, "MCP frame exceeds 1 MiB");
    assert_eq!(method_not_found().code, -32601);
}

#[test]
fn requests_are_routed() {
    assert_eq!(route(&value("{\"id\":1,\"method\":\"initialize\"}")), Some(Method::Initialize));
    assert_eq!(route(&value("{\"id\":1,\"method\":\"ping\"}")), Some(Method::Ping));
    assert_eq!(route(&value("{\"id\":1,\"method\":\"tools/list\"}")), Some(Method::ListTools));
    assert_eq!(route(&value("{\"id\":1,\"method\":\"tools/call\"}")), Some(Method::CallTool));
    assert_eq!(route(&value("{\"id\":1}")), Some(Method::Unknown));
    assert_eq!(route(&value("{\"method\":\"ping\"}")), None);
}

#[test]
fn tool_calls_are_read() {
    let call = read_tool_call(&value(
        "{\"params\":{\"name\":\"harness_stop\",\"arguments\":{\"worker_id\":\"w\"}}}",
    ))
    .unwrap();
    assert_eq!(call.tool, Tool::Stop);
    assert_eq!(call.arguments.unwrap(), value("{\"worker_id\":\"w\"}"));
    assert_eq!(
        read_tool_call(&value("{\"params\":{\"name\":\"fly\"}}")).unwrap_err(),
        "unknown Coordinator tool `fly`"
    );
    assert_eq!(read_tool_call(&value("{}")).unwrap_err(), "tool name is required");
}

#[test]
fn tools_have_one_name_and_operation() {
    assert_eq!(TOOLS, 19);
    for i in 0..TOOLS {
        let tool = Tool::at(i).unwrap();
        assert_eq!(find_tool(tool.as_str()), Some(tool));
        assert!(value(tool.schema()).is_object());
        assert!(!tool.description().is_empty());
        let asks = matches!(tool.operation(), ToolOperation::Query(_));
        assert_eq!(tool.argument_refusal().is_none(), asks);
    }
    assert_eq!(Tool::at(TOOLS), None);
    assert_eq!(find_tool("harness"), None);
    assert_eq!(Tool::Status.operation(), ToolOperation::Query(CoordinatorQuery::ListTasks));
    assert_eq!(Tool::Request.operation(), ToolOperation::SendMessage);
    assert_eq!(host_tools(HarnessTier::Supervisor).len(), TOOLS);
    let offered: Vec<&str> =
        host_tools(HarnessTier::Worker).into_iter().map(|tool| tool.as_str()).collect();
    assert_eq!(
        offered,
        vec![
            "harness_list",
            "harness_status",
            "harness_inbox",
            "harness_send",
            "harness_request",
            "harness_complete",
            "harness_attachment_create",
        ]
    );
}

#[test]
fn bridges_are_bound_to_a_bearer() {
    assert!(from_bearer("/s/coordinator.sock", "short".to_owned()).is_err());
    assert!(from_host_bearer("/s/coordinator.sock", "short".to_owned()).is_err());
    let server = from_bearer("/s/coordinator.sock", BEARER.to_owned()).unwrap();
    assert_eq!(server.state_dir().unwrap(), "/s");
    assert_eq!(server.inline_path("u").unwrap(), "/s/tmp/inline-attachment-u.tmp");
    assert_eq!(server.state_roots().unwrap_err(), "workspaces directory has no plugin state root");
    assert_eq!(
        server.completing_turn(None).unwrap_err(),
        "native turn ID is required for this provider"
    );
    assert_eq!(server.completing_turn(Some("t".to_owned())).unwrap(), "t");
    let bound = from_bearer_for_workspace("/k", BEARER.to_owned(), "/p/workspaces/d".to_owned())
        .unwrap()
        .with_native_turn_id("own".to_owned());
    assert_eq!(bound.completing_turn(Some("t".to_owned())).unwrap(), "own");
    assert_eq!(
        bound.state_roots().unwrap(),
        ("/p/workspaces/d".to_owned(), "/p".to_owned())
    );
    assert!(from_host_bearer_for_workspace("/k", BEARER.to_owned(), "/d".to_owned()).is_ok());
}

#[test]
fn worker_panes_know_their_coordinator() {
    let server =
        from_bearer_for_workspace("/k.sock", BEARER.to_owned(), "/p/workspaces/d".to_owned()).unwrap();
    assert_eq!(
        server
            .worker_pane("b", "/repo", "w".to_owned(), None, Ok("/bin/c".to_owned()))
            .unwrap_err(),
        "Herdr socket is required to open a Worker pane"
    );
    let server = server.with_herdr_socket("/h.sock".to_owned());
    assert_eq!(
        server
            .worker_pane("b", "/repo", "w".to_owned(), None, Err("no exe".to_owned()))
            .unwrap_err(),
        "no exe"
    );
    let launch = server
        .worker_pane("b", "/repo", "w".to_owned(), Some("/other".to_owned()), Ok("/bin/c".to_owned()))
        .unwrap();
    assert_eq!(launch.socket, "/h.sock");
    let names: Vec<&str> = launch.pane.env.iter().map(|(name, _)| name.as_str()).collect();
    assert_eq!(
        names,
        vec![
            "HERDR_COORDINATOR_BIN",
            "HERDR_COORDINATOR_SOCKET",
            "HERDR_COORDINATOR_STATE_DIR",
            "HERDR_HARNESS_CWD",
            "HERDR_HARNESS_SESSION_ID",
        ]
    );
}

#[test]
fn inline_attachments_are_bounded() {
    assert!(validate_inline_attachment("x", "text/plain", "n").is_ok());
    assert_eq!(
        validate_inline_attachment("", "text/plain", "n").unwrap_err(),
        "inline Attachment content must contain 1 to 524288 UTF-8 bytes"
    );
    assert!(validate_inline_attachment(&"x".repeat(524_289), "t", "n").is_err());
    assert_eq!(
        validate_inline_attachment("x", "", "n").unwrap_err(),
        "inline Attachment media_type must contain 1 to 255 bytes"
    );
    assert_eq!(
        validate_inline_attachment("x", "t", &"n".repeat(256)).unwrap_err(),
        "inline Attachment original_name must contain 1 to 255 bytes"
    );
}

#[test]
fn workers_are_selected_in_an_enabled_workspace() {
    let view = |desired: DesiredActivation| {
        Some(WorkspaceActivationView {
            schema_version: 1,
            workspace_id: "w".to_owned(),
            repository_root: "/repo".to_owned(),
            revision: 1,
            desired,
            runtime: ActivationRuntime::Online,
            selection: Some(WorkspaceSelection {
                schema_version: 1,
                supervisor: SupervisorSelection {
                    kind: HarnessKind::Omp,
                    model: "m".to_owned(),
                    reasoning_effort: None,
                    codex_approval_policy: None,
                    codex_sandbox_mode: None,
                },
                workers: vec![WorkerSelection {
                    worker_id: HarnessId("w1".to_owned()),
                    profile_id: HarnessId("p1".to_owned()),
                }],
            }),
            diagnostic: None,
            state_dir: "/p/workspaces/d".to_owned(),
        })
    };
    let on = view(DesiredActivation::On);
    assert_eq!(select_worker(&on, &HarnessId("w1".to_owned())).unwrap().as_str(), "p1");
    assert_eq!(
        select_worker(&on, &HarnessId("w2".to_owned())).unwrap_err(),
        "Worker `w2` is not selected for this workspace"
    );
    let disabled = "this Coordinator state directory is not enabled for a workspace";
    assert_eq!(
        select_worker(&view(DesiredActivation::Off), &HarnessId("w1".to_owned())).unwrap_err(),
        disabled
    );
    assert_eq!(select_worker(&None, &HarnessId("w1".to_owned())).unwrap_err(), disabled);
}

#[test]
fn configuration_directories_are_found() {
    let some = |text: &str| Some(text.to_owned());
    assert_eq!(plugin_config_dir("/s", some("/c"), some("/x"), some("/h")), "/c");
    assert_eq!(
        plugin_config_dir("/s", None, some("/x"), some("/h")),
        "/x/herdr/plugins/config/herdr-harness-coordinator"
    );
    assert_eq!(
        plugin_config_dir("/s", None, None, some("/h")),
        "/h/.config/herdr/plugins/config/herdr-harness-coordinator"
    );
    assert_eq!(plugin_config_dir("/s", None, None, None), "/s/config");
}

#[test]
fn answers_become_tool_results() {
    let answer = |result: Option<serde_json::Value>, error: Option<CoordinatorError>| {
        tool_result(BrokerResponse { result, error })
    };
    assert_eq!(answer(Some(value("{\"a\":1}")), None).unwrap(), value("{\"a\":1}"));
    let error = CoordinatorError::new(ErrorCategory::NotFound, "Task does not exist".to_owned());
    assert_eq!(answer(None, Some(error)).unwrap_err(), "Coordinator NotFound: Task does not exist");
    assert_eq!(answer(None, None).unwrap_err(), "Coordinator response omitted result");
}

#[test]
fn required_tools_are_verified() {
    let listed = |names: &[&str]| {
        let items: Vec<String> =
            names.iter().map(|name| format!("{{\"name\":\"{name}\"}}")).collect();
        value(&format!("[{}]", items.join(",")))
    };
    let all = listed(&[
        "harness_list",
        "harness_status",
        "harness_inbox",
        "harness_request",
        "harness_send",
        "harness_complete",
        "harness_attachment_create",
    ]);
    assert!(verify_required_worker_tools(Some(&all)).is_ok());
    assert_eq!(
        verify_required_worker_tools(Some(&listed(&["harness_list", "harness_status"]))).unwrap_err(),
        "Coordinator MCP bridge omitted required tool `harness_inbox`"
    );
    assert_eq!(
        verify_required_worker_tools(Some(&value("{}"))).unwrap_err(),
        "tools/list omitted its tool array"
    );
    assert!(verify_required_worker_tools(None).is_err());
}

#[test]
fn providers_bridge_their_own_tools() {
    let variable = |name: &str, text: &str| (name.to_owned(), text.to_owned());
    let env = vec![
        variable("HERDR_COORDINATOR_SOCKET", "/k.sock"),
        variable("HERDR_HARNESS_CAPABILITY", BEARER),
    ];
    let bridge = coordinator_bridge(&env).unwrap();
    assert_eq!(bridge.socket, "/k.sock");
    assert_eq!(bridge.completing_turn(None).unwrap(), "provider-turn");
    assert!(coordinator_bridge(&vec![variable("HERDR_COORDINATOR_SOCKET", "/k.sock")]).is_none());
    let forged = vec![
        variable("HERDR_COORDINATOR_SOCKET", "/k.sock"),
        variable("HERDR_HARNESS_CAPABILITY", "short"),
    ];
    assert!(coordinator_bridge(&forged).is_none());
}

#[test]
fn requests_are_answered_under_their_identifier() {
    let asked = |text: &str, called: Result<serde_json::Value, String>| answer(&value(text), called);
    let none = || Ok(serde_json::Value::Null);
    assert!(asked("{\"method\":\"ping\"}", none()).is_none());
    let first = asked("{\"id\":7,\"method\":\"initialize\"}", none()).unwrap();
    assert_eq!(first.id, value("7"));
    assert_eq!(first.jsonrpc, "2.0");
    assert!(matches!(
        first.body,
        AnswerBody::Initialized { protocol_version: "2025-06-18", list_changed: false, .. }
    ));
    let pong = asked("{\"id\":\"a\",\"method\":\"ping\"}", none()).unwrap();
    assert_eq!(pong.id, value("\"a\""));
    assert!(matches!(pong.body, AnswerBody::Pong));
    match asked("{\"id\":1,\"method\":\"tools/list\"}", none()).unwrap().body {
        AnswerBody::Tools { tools } => assert_eq!(tools.len(), host_tools(HarnessTier::Supervisor).len()),
        other => panic!("{other:?}"),
    }
    let call = "{\"id\":null,\"method\":\"tools/call\"}";
    match asked(call, Ok(value("{\"x\":1}"))).unwrap().body {
        AnswerBody::ToolResult { value: shown } => assert_eq!(shown, value("{\"x\":1}")),
        other => panic!("{other:?}"),
    }
    match asked(call, Err("no such Task".to_owned())).unwrap().body {
        AnswerBody::ToolError { text } => assert_eq!(text, "no such Task"),
        other => panic!("{other:?}"),
    }
    match asked("{\"id\":1,\"method\":\"tools/fetch\"}", none()).unwrap().body {
        AnswerBody::Refused { error } => {
            assert_eq!(error.code, -32601);
            assert_eq!(error.message, "method not found");
        }
        other => panic!("{other:?}"),
    }
}

#[test]
fn host_tools_are_labelled_by_their_names() {
    let tools = omp_host_tools(HarnessTier::Worker);
    let names: Vec<&str> = tools.iter().map(|tool| tool.name).collect();
    assert_eq!(
        names,
        [
            "harness_list",
            "harness_status",
            "harness_inbox",
            "harness_send",
            "harness_request",
            "harness_complete",
            "harness_attachment_create"
        ]
    );
    assert!(tools.iter().all(|tool| tool.label == tool.name));
    assert_eq!(tools[2].description, "Read unread Messages for this Harness.");
}

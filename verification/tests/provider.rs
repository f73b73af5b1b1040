use herdr_coordinator::adapter::{
    classify_codex_frame, classify_omp_frame, validate_codex_version_output,
    validate_omp_version_output, AdapterError, AdapterEvent, AdapterLifecycle, CodexFrame, CorrelationId,
    NativeDeliveryKind, NativeSession, NativeTurnStatus, OmpFrame, ResolvedAttachment, ResolvedDelivery, CODEX_VERSION_OUTPUT,
    OMP_VERSION_OUTPUT,
};
use herdr_coordinator::contract::{HarnessKind, HarnessTier, NativeSessionHealth};
use herdr_coordinator::identity::AttachmentId;
use herdr_coordinator::process_adapter::{
    capabilities, completion_tools, compatible_omp_model, delivery_text, is_method_not_found, provider_event, reader_failed, take_omp_state,
    ProviderState,
};
use herdr_coordinator::provider_session::{
    codex_arguments, codex_thread_method, conversation_contains, read_tool_answer, require_version,
    resume_target, settle_codex_start,
    verify_codex_mcp_readiness, VersionEnd,
};
use herdr_coordinator::reader::{read_codex_line, read_omp_line, LineStep};

fn value(text: &str) -> serde_json::Value {
    serde_json::from_str(text).unwrap()
}

#[test]
fn verified_omp_alias_retains_the_explicit_selection() {
    assert_eq!(
        compatible_omp_model(Some("kimi-code/k3:high"), Some("k3".to_owned())),
        Some("kimi-code/k3:high".to_owned())
    );
}

#[test]
fn different_provider_model_is_not_recorded_as_the_selection() {
    assert_eq!(
        compatible_omp_model(Some("kimi-code/k3:high"), Some("different-model".to_owned())),
        Some("different-model".to_owned())
    );
}

#[test]
fn an_unselected_model_is_recorded_as_observed() {
    assert_eq!(compatible_omp_model(None, Some("k3".to_owned())), Some("k3".to_owned()));
    assert_eq!(compatible_omp_model(None, None), None);
}

#[test]
fn version_output_is_matched_exactly() {
    assert!(validate_omp_version_output(OMP_VERSION_OUTPUT).is_ok());
    assert!(validate_omp_version_output(&format!("{OMP_VERSION_OUTPUT}\n")).is_ok());
    assert!(validate_omp_version_output(&format!("{OMP_VERSION_OUTPUT}\n\n")).is_err());
    assert!(validate_codex_version_output(&format!("{CODEX_VERSION_OUTPUT}\r\n")).is_ok());
    let refused = validate_codex_version_output("codex 0").unwrap_err();
    assert!(refused.text().contains("codex 0"));
    assert!(!refused.provider_bytes_may_have_been_written());
}

#[test]
fn version_checks_report_how_they_failed() {
    let ok = |text: &str| Ok(text.to_owned());
    assert!(require_version(HarnessKind::Omp, 3, ok(OMP_VERSION_OUTPUT), VersionEnd::Succeeded).is_ok());
    let long = require_version(HarnessKind::Omp, 4097, ok(OMP_VERSION_OUTPUT), VersionEnd::Succeeded);
    assert!(long.unwrap_err().text().contains("version output exceeds 4096 bytes"));
    let exited = require_version(
        HarnessKind::Codex,
        3,
        ok(CODEX_VERSION_OUTPUT),
        VersionEnd::Exited { status: "exit status: 2".to_owned() },
    );
    assert!(exited.unwrap_err().text().contains("version check exited with exit status: 2"));
    let late = require_version(
        HarnessKind::Codex,
        0,
        ok(""),
        VersionEnd::Failed { message: "version check timed out".to_owned() },
    );
    assert!(late.unwrap_err().text().contains("version check timed out"));
}

#[test]
fn omp_frames_are_classified() {
    match classify_omp_frame("{\"type\":\"response\",\"id\":\"7\",\"success\":true,\"command\":\"prompt\",\"data\":{\"a\":1}}") {
        Ok(OmpFrame::Response { .. }) => {}
        other => panic!("{other:?}"),
    }
    assert!(classify_omp_frame("not json").is_err());
    assert!(classify_omp_frame("{}").is_err());
}

#[test]
fn codex_frames_are_classified() {
    match classify_codex_frame("{\"id\":4,\"result\":{}}") {
        Ok(CodexFrame::Response { id, .. }) => assert_eq!(id.text(), "4"),
        other => panic!("{other:?}"),
    }
    match classify_codex_frame("{\"method\":\"turn/started\",\"params\":{}}") {
        Ok(CodexFrame::Notification { method, .. }) => assert_eq!(method, "turn/started"),
        other => panic!("{other:?}"),
    }
    assert!(classify_codex_frame("[]").is_err());
    assert_eq!(CorrelationId::Number(-3).text(), "-3");
    assert_eq!(CorrelationId::String("x".to_owned()).text(), "x");
}

#[test]
fn deliveries_name_their_attachments() {
    let delivery = ResolvedDelivery {
        correlation: "c".to_owned(),
        task_id: None,
        kind: NativeDeliveryKind::StartTurn,
        text: "do it".to_owned(),
        attachments: vec![ResolvedAttachment {
            id: AttachmentId(1),
            path: "/state/attachments/a".to_owned(),
            media_type: "text/plain".to_owned(),
        }],
    };
    let text = delivery_text(&delivery);
    assert!(text.starts_with("do it"));
    assert!(text.contains("/state/attachments/a"));
}

#[test]
fn provider_events_follow_the_turn() {
    let mut state = ProviderState::new();
    assert_eq!(state.snapshot().lifecycle, AdapterLifecycle::Starting);
    let started = provider_event(
        HarnessKind::Codex,
        "turn/started",
        &value("{\"turn\":{\"id\":\"t1\"}}"),
        &mut state,
    );
    assert!(started.is_some());
    assert_eq!(state.snapshot().lifecycle, AdapterLifecycle::Working);
    assert!(state.snapshot().steerable);
}

#[test]
fn tool_readiness_names_what_is_missing() {
    assert!(verify_codex_mcp_readiness(None, HarnessTier::Worker).is_ok());
    let empty = value("{\"data\":[{\"name\":\"herdr\",\"tools\":{\"harness_list\":{}}}]}");
    let refused = verify_codex_mcp_readiness(Some(&empty), HarnessTier::Worker).unwrap_err();
    assert!(refused.text().contains("harness_status, harness_inbox"));
    let absent = value("{\"data\":[]}");
    let refused = verify_codex_mcp_readiness(Some(&absent), HarnessTier::Worker).unwrap_err();
    assert!(refused.text().contains("herdr MCP server is not ready"));
    assert!(is_method_not_found("error -32601: method not found"));
}

#[test]
fn tool_answers_are_read() {
    assert_eq!(read_tool_answer(Some(&value("{\"result\":{\"isError\":true}}"))), Ok(true));
    assert_eq!(read_tool_answer(Some(&value("{\"result\":{}}"))), Ok(false));
    assert_eq!(
        read_tool_answer(Some(&value("{\"error\":{\"message\":\"no\"}}"))),
        Err("no".to_owned())
    );
    assert_eq!(
        read_tool_answer(None),
        Err("Coordinator MCP returned no correlated response".to_owned())
    );
}

#[test]
fn conversations_are_searched_for_a_marker() {
    let messages = value("{\"messages\":[{\"text\":\"delivery 42\"}]}");
    assert!(conversation_contains(&messages, "delivery 42"));
    assert!(!conversation_contains(&messages, "delivery 43"));
}

#[test]
fn codex_is_asked_for_a_thread() {
    assert_eq!(codex_thread_method(false), "thread/start");
    assert_eq!(codex_thread_method(true), "thread/resume");
    assert!(codex_arguments("/bin/coordinator").iter().any(|word| word.contains("/bin/coordinator")));
}

#[test]
fn ambiguous_deliveries_may_have_been_written() {
    let error = AdapterError::DeliveryAmbiguous {
        kind: HarnessKind::Omp,
        message: "timed out".to_owned(),
    };
    assert!(error.provider_bytes_may_have_been_written());
}

#[test]
fn responses_without_data_are_null() {
    match classify_omp_frame("{\"type\":\"response\",\"id\":\"7\",\"success\":true,\"command\":\"abort\"}") {
        Ok(OmpFrame::Response { result: Ok(data), command, .. }) => {
            assert!(data.is_null());
            assert_eq!(command, "abort");
        }
        other => panic!("{other:?}"),
    }
    match classify_omp_frame("{\"type\":\"response\",\"id\":\"7\",\"success\":false,\"command\":\"abort\",\"error\":\"busy\"}") {
        Ok(OmpFrame::Response { result: Err(message), .. }) => assert_eq!(message, "busy"),
        other => panic!("{other:?}"),
    }
}

#[test]
fn correlations_are_texts_or_integers() {
    assert!(classify_codex_frame("{\"id\":1.5,\"result\":{}}").is_err());
    assert!(classify_codex_frame("{\"id\":\"\",\"result\":{}}").is_err());
    match classify_codex_frame("{\"id\":\"x\",\"method\":\"ask\",\"params\":{\"a\":[1]}}") {
        Ok(CodexFrame::ServerRequest { id, method, params }) => {
            assert_eq!(id.text(), "x");
            assert_eq!(method, "ask");
            assert_eq!(params, value("{\"a\":[1]}"));
        }
        other => panic!("{other:?}"),
    }
}

#[test]
fn transcripts_are_found_inside_events() {
    let mut state = ProviderState::new();
    let nested = value("{\"item\":[{\"kind\":3},{\"content\":{\"text\":\"hello\"}}]}");
    match provider_event(HarnessKind::Codex, "item/agentMessage/delta", &nested, &mut state) {
        Some(AdapterEvent::Transcript { text }) => assert_eq!(text, "hello"),
        other => panic!("{other:?}"),
    }
}

#[test]
fn state_reports_are_taken_in() {
    let mut state = ProviderState::new();
    let report = value(
        "{\"isStreaming\":true,\"sessionId\":\"s\",\"queuedMessageCount\":2,\"contextUsage\":{\"tokens\":10,\"contextWindow\":100}}",
    );
    take_omp_state(&mut state, &report, true);
    assert_eq!(state.lifecycle, AdapterLifecycle::Working);
    assert_eq!(state.session_id.as_deref(), Some("s"));
    assert_eq!(state.queued_input_count, Some(2));
    assert_eq!(state.context_tokens, Some(10));
    assert_eq!(state.context_window, Some(100));
    assert_eq!(state.native_health, NativeSessionHealth::ContextPressure);
    let failed = reader_failed(HarnessKind::Omp, &mut state);
    assert!(matches!(failed, Some(AdapterEvent::Failed { .. })));
    state.lifecycle = AdapterLifecycle::Stopping;
    assert!(reader_failed(HarnessKind::Omp, &mut state).is_none());
}

#[test]
fn conversations_are_resumed_by_their_own_identity() {
    let some = |text: &str| Some(text.to_owned());
    assert_eq!(resume_target(HarnessKind::Omp, some("s"), some("t")).unwrap(), "s");
    assert_eq!(resume_target(HarnessKind::Codex, some("s"), some("t")).unwrap(), "t");
    assert!(resume_target(HarnessKind::Omp, None, some("t"))
        .unwrap_err()
        .text()
        .contains("OMP resume requires a native Session ID"));
}

#[test]
fn lines_of_omp_are_answered_told_or_called() {
    let mut state = ProviderState::new();
    let answer = read_omp_line(
        r#"{"type":"response","id":"host-1","command":"get_state","success":true,"data":{"a":1}}"#,
        &mut state,
    );
    match answer {
        LineStep::Answer { id, result } => {
            assert_eq!(id, "host-1");
            assert!(result.is_ok());
        }
        other => panic!("{other:?}"),
    }
    match read_omp_line(r#"{"type":"agent_start","turn":{"id":"t1"}}"#, &mut state) {
        LineStep::Tell { event: AdapterEvent::TurnStarted { turn_id } } => {
            assert_eq!(turn_id.as_deref(), Some("t1"));
        }
        other => panic!("{other:?}"),
    }
    assert_eq!(state.lifecycle, AdapterLifecycle::Working);
    let called = read_omp_line(
        r#"{"type":"host_tool_call","id":"7","toolCallId":"c","toolName":"harness_inbox","arguments":{}}"#,
        &mut state,
    );
    match called {
        LineStep::CallTool { id, tool_name, event: AdapterEvent::Activity { summary }, .. } => {
            assert_eq!(id, "7");
            assert_eq!(tool_name, "harness_inbox");
            assert_eq!(summary, "OMP host tool harness_inbox (7)");
        }
        other => panic!("{other:?}"),
    }
    assert!(matches!(read_omp_line("no json", &mut state), LineStep::Complain { .. }));
}

#[test]
fn lines_of_foreign_codex_threads_are_ignored() {
    let mut state = ProviderState::new();
    state.thread_id = Some("mine".to_owned());
    let foreign = r#"{"method":"turn/completed","params":{"threadId":"other","turn":{"id":"x"}}}"#;
    assert!(matches!(read_codex_line(foreign, &mut state), LineStep::Ignore));
    let own = r#"{"method":"turn/completed","params":{"threadId":"mine","turn":{"id":"x","status":"failed"}}}"#;
    match read_codex_line(own, &mut state) {
        LineStep::Tell { event: AdapterEvent::TurnCompleted { turn_id, status } } => {
            assert_eq!(turn_id.as_deref(), Some("x"));
            assert_eq!(status, NativeTurnStatus::Failed);
        }
        other => panic!("{other:?}"),
    }
    match read_codex_line(r#"{"id":3,"error":{"code":1}}"#, &mut state) {
        LineStep::Answer { id, result } => {
            assert_eq!(id, "3");
            assert_eq!(result.unwrap_err(), r#"{"code":1}"#);
        }
        other => panic!("{other:?}"),
    }
    match read_codex_line(r#"{"id":"r","method":"ask","params":{}}"#, &mut state) {
        LineStep::Tell { event: AdapterEvent::InputRequired { correlation, prompt } } => {
            assert_eq!(correlation.as_deref(), Some("r"));
            assert_eq!(prompt, "Codex requested ask");
        }
        other => panic!("{other:?}"),
    }
}

#[test]
fn codex_starts_once_its_tools_are_ready() {
    let native = || NativeSession {
        session_id: Some("s".to_owned()),
        thread_id: Some("t".to_owned()),
        cwd: "/w".to_owned(),
        model: Some("m".to_owned()),
    };
    let mut state = ProviderState::new();
    let before = state.lifecycle;
    let bare = value(r#"{"data":[{"name":"herdr","tools":{"harness_list":{}}}]}"#);
    let error = settle_codex_start(native(), Some(&bare), HarnessTier::Worker, &mut state).unwrap_err();
    assert!(error.text().contains("herdr MCP server is not ready; missing tools: harness_status, "));
    assert_eq!(state.lifecycle, before);
    assert_eq!(state.thread_id, None);
    settle_codex_start(native(), None, HarnessTier::Worker, &mut state).unwrap();
    assert_eq!(state.lifecycle, AdapterLifecycle::Idle);
    assert_eq!(state.thread_id.as_deref(), Some("t"));
    assert_eq!(state.model.as_deref(), Some("m"));
}

#[test]
fn providers_differ_in_what_they_can_do() {
    assert!(capabilities(HarnessKind::Omp).active_turn_follow_up);
    assert!(!capabilities(HarnessKind::Codex).active_turn_follow_up);
    assert!(capabilities(HarnessKind::Codex).active_turn_steering);
    assert_eq!(completion_tools(HarnessKind::Omp).complete, "harness_complete");
    assert_eq!(
        completion_tools(HarnessKind::Codex).attachment_create,
        "tools.mcp__herdr__harness_attachment_create"
    );
}

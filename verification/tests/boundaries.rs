use herdr_coordinator::attachment::{
    map_source_open_error, validate_opened_source, AttachmentError, AttachmentStore, Content,
    FileStatus, StoredFile, DEFAULT_MAX_ATTACHMENT_BYTES,
};
use herdr_coordinator::herdr::{
    parse_plugin_pane, parse_snapshot, settle_response, take_piece, version_at_least, HerdrError,
    HerdrSocketClient, MetadataProjection, PaneInfo, PluginPaneOpenParams, SessionSnapshot,
    WireError, WireResponse, MAX_RESPONSE_BYTES,
};
use herdr_coordinator::identity::AttachmentId;

fn value(text: &str) -> serde_json::Value {
    serde_json::from_str(text).unwrap()
}

fn regular(size: u64) -> FileStatus {
    FileStatus { symlink: false, regular: true, mode: 0o100_644, size, device: 1, inode: 2 }
}

fn content(bytes: &[u8]) -> Content {
    let mut content = Content::new(u64::MAX);
    content.take(bytes).unwrap();
    content
}

#[test]
fn admitted_content_verifies_until_it_changes() {
    let store = AttachmentStore::new("/state".to_owned());
    let mut copied = store.require_source("/src/a.txt", regular(3)).unwrap();
    copied.take(b"ab").unwrap();
    copied.take(b"c").unwrap();
    let metadata = store.admit_content(AttachmentId(5), &copied, "text/plain", "a.txt");
    assert_eq!(metadata.size_bytes, 3);
    assert_eq!(
        metadata.digest,
        "ba7816bf8f01cfea414140de5dae2223b00361a396177a9cb410ff61f20015ad"
    );
    assert_eq!(metadata.storage_path, "attachments/00000000-0000-0000-0000-000000000005");
    assert_eq!(
        store.published_path(AttachmentId(5)),
        "/state/attachments/00000000-0000-0000-0000-000000000005"
    );
    assert_eq!(
        store.temporary_path(AttachmentId(5)),
        "/state/tmp/attachment-00000000-0000-0000-0000-000000000005.tmp"
    );
    let stored = StoredFile::Regular { content: content(b"abc") };
    assert!(store.verify(&metadata, &stored).is_ok());
    let longer = StoredFile::Regular { content: content(b"abcd") };
    assert_eq!(
        store.verify(&metadata, &longer).unwrap_err().text(),
        "Attachment 00000000-0000-0000-0000-000000000005 is corrupt: size mismatch: expected 3, found 4"
    );
    let other = StoredFile::Regular { content: content(b"abd") };
    assert!(store.verify(&metadata, &other).unwrap_err().text().ends_with("SHA-256 digest mismatch"));
    assert!(store
        .verify(&metadata, &StoredFile::Irregular)
        .unwrap_err()
        .text()
        .ends_with("stored path is not a regular file"));
    let gone = StoredFile::Unreachable { error: "gone".to_owned() };
    assert!(store.verify(&metadata, &gone).unwrap_err().text().ends_with("gone"));
    let mut moved = store.admit_content(AttachmentId(5), &copied, "text/plain", "a.txt");
    moved.storage_path = "attachments/else".to_owned();
    assert!(store
        .verify(&moved, &stored)
        .unwrap_err()
        .text()
        .ends_with("storage path does not match Attachment identity"));
}

#[test]
fn sources_are_inspected() {
    let store = AttachmentStore::with_max_bytes("/state".to_owned(), 4);
    let refusal = |found: FileStatus| store.require_source("/a", found).unwrap_err();
    assert_eq!(
        refusal(FileStatus { symlink: true, ..regular(1) }).text(),
        "invalid Attachment source `/a`: final path is a symlink"
    );
    assert!(refusal(FileStatus { regular: false, ..regular(1) })
        .text()
        .ends_with("source is not a regular file"));
    assert!(refusal(FileStatus { mode: 0o100_200, ..regular(1) })
        .text()
        .ends_with("source has no readable permission bits"));
    assert_eq!(refusal(regular(5)).text(), "Attachment exceeds the configured 4-byte limit");
    let mut copied = store.require_source("/a", regular(4)).unwrap();
    assert!(copied.take(b"abc").is_ok());
    assert!(matches!(copied.take(b"de"), Err(AttachmentError::TooLarge { limit: 4 })));
    assert_eq!(copied.size(), 3);
    assert!(validate_opened_source("/a", regular(1), regular(1)).is_ok());
    let changed = FileStatus { inode: 3, ..regular(1) };
    assert!(validate_opened_source("/a", regular(1), changed)
        .unwrap_err()
        .text()
        .ends_with("source changed during admission"));
    assert!(map_source_open_error("/a", true, "denied").text().ends_with("source is not readable"));
    assert_eq!(
        map_source_open_error("/a", false, "loop").text(),
        "failed to open source without following symlink `/a`: loop"
    );
    assert_eq!(DEFAULT_MAX_ATTACHMENT_BYTES, 67_108_864);
}

fn pane(id: &str, terminal: &str) -> PaneInfo {
    PaneInfo {
        pane_id: id.to_owned(),
        terminal_id: terminal.to_owned(),
        workspace_id: "w".to_owned(),
        tab_id: "t".to_owned(),
        focused: false,
        agent_status: "idle".to_owned(),
        revision: 1,
        state_labels: Vec::new(),
        tokens: Vec::new(),
    }
}

fn snapshot(version: &str, protocol: u32, panes: Vec<PaneInfo>) -> SessionSnapshot {
    SessionSnapshot { version: version.to_owned(), protocol, panes }
}

#[test]
fn releases_are_compared_by_number() {
    assert!(version_at_least("0.7.4", "0.7.4"));
    assert!(version_at_least("0.10.0", "0.7.4"));
    assert!(!version_at_least("0.7.3", "0.7.4"));
    assert!(!version_at_least("0.7", "0.7.4"));
    assert!(!version_at_least("0.7.4.1", "0.7.4"));
    assert!(!version_at_least("0.7.x", "0.7.4"));
    assert!(version_at_least("+1.0.18446744073709551615", "0.7.4"));
    assert!(!version_at_least("1.0.18446744073709551616", "0.7.4"));
    assert!(snapshot("0.7.4", 16, Vec::new()).validate_compatibility().is_ok());
    assert_eq!(
        snapshot("0.7.4", 15, Vec::new()).validate_compatibility().unwrap_err().text(),
        "Herdr >=0.7.4 with protocol 16 required; received version 0.7.4, protocol 15"
    );
    assert!(snapshot("0.7.3", 16, Vec::new()).validate_compatibility().is_err());
}

#[test]
fn terminals_are_resolved_to_one_pane() {
    let seen = snapshot("0.7.4", 16, vec![pane("p1", "a"), pane("p2", "b"), pane("p3", "b")]);
    assert_eq!(seen.resolve_terminal("a").unwrap().pane_id, "p1");
    assert_eq!(
        seen.resolve_terminal("b").unwrap_err().text(),
        "terminal b occurs more than once in the current Herdr snapshot"
    );
    assert_eq!(
        seen.resolve_terminal("c").unwrap_err().text(),
        "terminal c is absent from the current Herdr snapshot"
    );
}

#[test]
fn pane_requests_carry_their_environment() {
    let worker = PluginPaneOpenParams::worker("bearer", "/repo", Some("w".to_owned()));
    assert_eq!(worker.entrypoint, "worker");
    assert!(!worker.focus);
    assert_eq!(worker.env.len(), 2);
    assert_eq!(worker.env[1], ("HERDR_HARNESS_SESSION_ID".to_owned(), "bearer".to_owned()));
    let supervisor = PluginPaneOpenParams::supervisor("bearer", "/repo", None);
    assert!(supervisor.focus);
    assert_eq!(supervisor.env[0].0, "HERDR_SUPERVISOR_CAPABILITY");
    let popup = PluginPaneOpenParams::popup("w".to_owned());
    assert_eq!(popup.placement.as_deref(), Some("popup"));
    assert!(popup.env.is_empty());
    assert_eq!(HerdrSocketClient::new("/h".to_owned()).socket_path, "/h");
}

#[test]
fn metadata_is_projected_without_agent_status() {
    let shown = MetadataProjection {
        title: "w1".to_owned(),
        state: "working".to_owned(),
        detail: "task".to_owned(),
        inbox: 12,
    }
    .for_pane("p", 7);
    assert_eq!(shown.seq, Some(7));
    assert_eq!(
        shown.state_labels,
        vec![
            ("detail".to_owned(), "task".to_owned()),
            ("inbox".to_owned(), "12".to_owned()),
            ("state".to_owned(), "working".to_owned()),
        ]
    );
}

#[test]
fn response_lines_are_bounded() {
    let mut line = Vec::new();
    assert!(!take_piece(&mut line, b"{\"a\"").unwrap());
    assert!(take_piece(&mut line, b":1}\nrest").unwrap());
    assert_eq!(line, b"{\"a\":1}\n".to_vec());
    assert!(matches!(take_piece(&mut line, b""), Err(HerdrError::UnexpectedResponse(_))));
    let mut full = vec![b'x'; MAX_RESPONSE_BYTES];
    assert!(matches!(take_piece(&mut full, b"y"), Err(HerdrError::OversizedResponse)));
    assert_eq!(
        HerdrError::OversizedResponse.text(),
        "Herdr response exceeded the 1048576 byte limit"
    );
}

#[test]
fn responses_are_correlated() {
    let response = |id: &str, result: Option<serde_json::Value>, error: Option<WireError>| {
        WireResponse { id: id.to_owned(), result, error }
    };
    assert!(settle_response("a", response("a", Some(value("1")), None)).is_ok());
    assert_eq!(
        settle_response("a", response("b", Some(value("1")), None)).unwrap_err().text(),
        "Herdr response correlation mismatch: expected a, received b"
    );
    let error = WireError { code: "busy".to_owned(), message: "later".to_owned() };
    assert_eq!(
        settle_response("a", response("a", Some(value("1")), Some(error))).unwrap_err().text(),
        "Herdr returned busy: later"
    );
    assert_eq!(
        settle_response("a", response("a", None, None)).unwrap_err().text(),
        "unexpected Herdr response: missing result"
    );
}

#[test]
fn results_are_of_their_type() {
    let good = value("{\"type\":\"session_snapshot\",\"snapshot\":{\"version\":\"0.7.4\"}}");
    assert_eq!(parse_snapshot(&good).unwrap(), value("{\"version\":\"0.7.4\"}"));
    let other = value("{\"type\":\"else\",\"snapshot\":{}}");
    assert_eq!(
        parse_snapshot(&other).unwrap_err().text(),
        "unexpected Herdr response: {\"snapshot\":{},\"type\":\"else\"}"
    );
    let opened = value("{\"type\":\"plugin_pane_opened\",\"plugin_pane\":5}");
    assert_eq!(parse_plugin_pane(&opened, "plugin_pane_opened").unwrap(), value("5"));
    assert!(parse_plugin_pane(&opened, "plugin_pane_focused").is_err());
    assert!(parse_plugin_pane(&value("{\"type\":\"plugin_pane_opened\"}"), "plugin_pane_opened").is_err());
}

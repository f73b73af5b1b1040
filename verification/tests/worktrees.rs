use herdr_coordinator::digest::digest_bytes;
use herdr_coordinator::error::ErrorCategory;
use herdr_coordinator::repository::{
    assess_checkpoint, classify_path, content_evidence, has_out_of_scope, inspect_untracked,
    is_sorted, parse_status, GitRepository, RawObservation, RepositoryError, RepositorySnapshot, ScopeClassification,
    TrackedEvidence, UntrackedContent, WorktreeContent, WriteScopeV1,
};
use herdr_coordinator::scopes::{
    nearest_existing, places_to_inspect, validate_scope, EntryKind, EntryStep, ScopeFacts, ScopeScan,
    MAX_SCOPE_ENTRIES,
};
use herdr_coordinator::snapshots::{
    describe_command, git_failure, read_git_version, require_current,
};

fn records(list: &[&str]) -> Vec<u8> {
    let mut bytes = Vec::new();
    for record in list {
        bytes.extend_from_slice(record.as_bytes());
        bytes.push(0);
    }
    bytes
}

const HEAD: &str = "# branch.oid 0123456789012345678901234567890123456789";
const ORDINARY: &str = "1 .M N... 100644 100644 100644 aaaa bbbb src/lib.rs";

fn repository() -> GitRepository {
    GitRepository::discovered("false\n", "/repo".to_owned(), "/repo/".to_owned(), "/repo/.git".to_owned())
        .unwrap()
}

fn observe(list: &[&str], evidence: &str) -> RepositorySnapshot {
    let parsed = parse_status(&records(list)).unwrap();
    let indexed = parsed
        .status_entries
        .iter()
        .map(|_| TrackedEvidence { index: Vec::new(), content: evidence.to_owned() })
        .collect();
    let untracked = parsed
        .untracked_paths
        .iter()
        .map(|path| UntrackedContent::File { size: 3, content: path.as_bytes().to_vec() })
        .collect();
    repository()
        .observe(RawObservation {
            status: records(list),
            staged_diff: Vec::new(),
            unstaged_diff: Vec::new(),
            index: None,
            untracked,
            indexed,
        })
        .unwrap()
}

#[test]
fn untracked_paths_have_one_piece_of_evidence_each() {
    let seen = observe(&[HEAD, "? z.txt", ORDINARY, "? a.txt"], "file:x");
    let paths: Vec<&str> = seen.untracked.iter().map(|item| item.path.as_str()).collect();
    assert_eq!(paths, ["a.txt", "z.txt"]);
    assert_eq!(seen.untracked[0].digest.as_deref(), Some(digest_bytes(b"a.txt").as_str()));
    assert_eq!(seen.untracked[0].size, Some(3));
    let entries: Vec<&str> = seen.status_entries.iter().map(|entry| entry.path.as_str()).collect();
    assert_eq!(entries, ["a.txt", "src/lib.rs", "z.txt"]);
    assert_eq!(seen.head.as_deref(), Some("0123456789012345678901234567890123456789"));
    assert_eq!(seen.branch, None);
    let link = inspect_untracked("l", &UntrackedContent::Symlink);
    assert_eq!((link.size, link.digest), (None, None));
    let broken = RawObservation {
        status: records(&["x y"]),
        staged_diff: Vec::new(),
        unstaged_diff: Vec::new(),
        index: None,
        untracked: Vec::new(),
        indexed: Vec::new(),
    };
    assert!(matches!(repository().observe(broken), Err(RepositoryError::InvalidStatus(_))));
}

#[test]
fn status_records_are_read() {
    let status = parse_status(&records(&[
        HEAD,
        "# branch.head main",
        ORDINARY,
        "2 R. N... 100644 100644 100644 aaaa bbbb R100 new.rs",
        "old.rs",
        "? notes.txt",
        "! target/",
    ]))
    .unwrap();
    assert_eq!(status.head.as_deref(), Some("0123456789012345678901234567890123456789"));
    assert_eq!(status.branch.as_deref(), Some("main"));
    let paths: Vec<&str> = status.status_entries.iter().map(|entry| entry.path.as_str()).collect();
    assert_eq!(paths, vec!["new.rs", "notes.txt", "src/lib.rs"]);
    assert_eq!(status.status_entries[0].original_path.as_deref(), Some("old.rs"));
    assert_eq!(status.status_entries[2].index_status, ".");
    assert_eq!(status.status_entries[2].worktree_status, "M");
    assert_eq!(status.untracked_paths, vec!["notes.txt".to_owned()]);
    assert_eq!(status.ignored_paths, vec!["target".to_owned()]);
}

#[test]
fn malformed_status_is_refused() {
    assert!(matches!(parse_status(&records(&["x nonsense"])), Err(RepositoryError::InvalidStatus(_))));
    assert!(matches!(parse_status(&[0xff, 0]), Err(RepositoryError::NonUtf8Path)));
    assert!(matches!(parse_status(&records(&["1 .M"])), Err(RepositoryError::InvalidStatus(_))));
}

#[test]
fn roots_are_exact_worktrees() {
    let bare = GitRepository::discovered("true\n", "/a".to_owned(), "/a".to_owned(), "/a".to_owned());
    assert_eq!(bare.unwrap_err().text(), "bare Git repositories are not supported");
    let below =
        GitRepository::discovered("false", "/a/b".to_owned(), "/a".to_owned(), "/a/.git".to_owned());
    assert_eq!(
        below.unwrap_err().text(),
        "selected repository root `/a/b` differs from Git worktree root `/a`"
    );
    assert_eq!(repository().identity().git_common_dir, "/repo/.git");
}

#[test]
fn changes_are_classified_by_scope() {
    let scopes = vec![
        WriteScopeV1::ExactFile { path: "README.md".to_owned() },
        WriteScopeV1::Subtree { path: "src".to_owned() },
    ];
    assert!(matches!(
        classify_path("src/a/b.rs", &scopes).matched_scope,
        Some(WriteScopeV1::Subtree { path }) if path == "src"
    ));
    assert!(matches!(
        classify_path("README.md", &scopes).matched_scope,
        Some(WriteScopeV1::ExactFile { path }) if path == "README.md"
    ));
    assert_eq!(
        classify_path("srcs/a.rs", &scopes).classification,
        ScopeClassification::OutOfScope
    );
    let before = observe(&[HEAD], "");
    let after = observe(&[HEAD, ORDINARY], "file:x");
    let found = assess_checkpoint(&after, &before, &scopes).unwrap();
    assert_eq!(found.changed_paths, vec!["src/lib.rs".to_owned()]);
    assert!(!has_out_of_scope(&found));
    assert!(has_out_of_scope(&assess_checkpoint(&after, &before, &Vec::new()).unwrap()));
    assert!(assess_checkpoint(&after, &after, &Vec::new()).unwrap().changed_paths.is_empty());
}

#[test]
fn drift_after_a_checkpoint_is_noticed() {
    let first = observe(&[HEAD, ORDINARY], "file:x");
    let same = observe(&[HEAD, ORDINARY], "file:x");
    let other = observe(&[HEAD, ORDINARY], "file:y");
    assert!(require_current(&same, &first).is_ok());
    let error = require_current(&other, &first).unwrap_err();
    assert_eq!(error.category, ErrorCategory::Conflict);
    assert_eq!(
        error.message,
        "repository changed after the trusted checkpoint was captured"
    );
    assert_eq!(first.index_digest, digest_bytes(&[]));
    assert!(is_sorted(&first.fingerprints));
    let mut turned = observe(&[HEAD, ORDINARY, "? a.txt"], "file:x").fingerprints;
    assert!(is_sorted(&turned));
    turned.reverse();
    assert!(!is_sorted(&turned));
}

#[test]
fn contents_leave_evidence() {
    assert_eq!(content_evidence(&WorktreeContent::Missing), "missing");
    assert_eq!(content_evidence(&WorktreeContent::Other), "other");
    assert_eq!(
        content_evidence(&WorktreeContent::File(b"abc".to_vec())),
        format!("file:{}", digest_bytes(b"abc"))
    );
    assert_eq!(
        content_evidence(&WorktreeContent::Symlink("abc".to_owned())),
        format!("symlink:{}", digest_bytes(b"abc"))
    );
}

#[test]
fn git_failures_are_bounded() {
    let command = describe_command(&vec!["status".to_owned(), "-z".to_owned()]);
    assert_eq!(command, "git status -z");
    let error = git_failure(command, Some(128), " fatal: no\n");
    assert_eq!(
        error.text(),
        "Git command `git status -z` failed with exit code Some(128): fatal: no"
    );
    match git_failure("git".to_owned(), None, &"x".repeat(3000)) {
        RepositoryError::Git { diagnostics, exit_code, .. } => {
            assert_eq!(diagnostics.len(), 2048);
            assert_eq!(exit_code, None);
        }
        other => panic!("{other:?}"),
    }
}

#[test]
fn git_reports_its_version() {
    assert_eq!(read_git_version(true, Ok("git version 2.1\n".to_owned())).unwrap(), "git version 2.1");
    assert_eq!(
        read_git_version(false, Ok(String::new())).unwrap_err().category,
        ErrorCategory::RepositoryBlocked
    );
    assert_eq!(
        read_git_version(true, Err("no text".to_owned())).unwrap_err().category,
        ErrorCategory::StorageFailure
    );
}

#[test]
fn scopes_stay_in_the_worktree() {
    let subtree = |path: &str| WriteScopeV1::Subtree { path: path.to_owned() };
    let facts = |resolved: Result<&str, &str>, nested: bool, directory: bool| ScopeFacts {
        resolved: resolved.map(str::to_owned).map_err(str::to_owned),
        nested,
        directory,
    };
    assert!(validate_scope("/repo", &subtree("src"), &facts(Ok("/repo/src"), false, true)).unwrap());
    let exact = WriteScopeV1::ExactFile { path: "a".to_owned() };
    assert!(!validate_scope("/repo", &exact, &facts(Ok("/repo"), false, true)).unwrap());
    let refusal = |scope: &WriteScopeV1, found: ScopeFacts| {
        validate_scope("/repo", scope, &found).unwrap_err().message
    };
    assert_eq!(
        refusal(&subtree("a/.git/hooks"), facts(Ok("/repo"), false, true)),
        "write scope may not target Git administrative data"
    );
    assert_eq!(
        refusal(&subtree("a"), facts(Ok("/elsewhere"), false, true)),
        "write scope resolves outside the canonical worktree"
    );
    assert_eq!(
        refusal(&subtree("a"), facts(Ok("/repo/a"), true, true)),
        "write scope crosses a nested repository or submodule boundary"
    );
    assert_eq!(refusal(&subtree("a"), facts(Err("gone"), false, true)), "gone");
    let existing = vec!["/repo".to_owned(), "/repo/a".to_owned()];
    assert_eq!(nearest_existing("/repo", &subtree("a/b/c"), &existing), "/repo/a");
    assert_eq!(nearest_existing("/repo", &subtree("x/y"), &Vec::new()), "/repo");
    assert_eq!(
        places_to_inspect("/repo/a/b", "/repo"),
        vec!["/repo/a/b".to_owned(), "/repo/a".to_owned()]
    );
}

#[test]
fn subtrees_are_scanned() {
    let mut scan = ScopeScan::new();
    let mut seen = |directory: &str, name: &str, kind: EntryKind| {
        scan.on_entry("/repo", directory, name, &kind).map_err(|error| error.message)
    };
    assert_eq!(seen("/repo", "src", EntryKind::Directory), Ok(EntryStep::Descend));
    assert_eq!(seen("/repo", ".git", EntryKind::Directory), Ok(EntryStep::Pass));
    assert_eq!(
        seen("/repo/src", ".git", EntryKind::Other),
        Err("write scope contains a nested repository or submodule".to_owned())
    );
    let link = |path: &str| EntryKind::Link { target: Ok(path.to_owned()) };
    assert_eq!(seen("/repo/src", "in", link("/repo/lib")), Ok(EntryStep::Pass));
    assert_eq!(
        seen("/repo/src", "out", link("/etc")),
        Err("write scope contains a symlink escaping the canonical worktree".to_owned())
    );
    let mut full = ScopeScan { visited: MAX_SCOPE_ENTRIES };
    assert_eq!(
        full.on_entry("/repo", "/repo", "a", &EntryKind::Other).unwrap_err().message,
        "write scope subtree is too large to validate safely"
    );
}

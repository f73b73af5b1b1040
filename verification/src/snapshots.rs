//! Whether a repository is still as it was captured, and what is said of failed observations.
use vstd::prelude::*;

use crate::error::{refusal, refuse, CoordinatorError, ErrorCategory};
use crate::paths::{components, same_path};
use crate::repository::{
    same_identity, Fingerprint, GitStatusEntryV1, RepositoryError, RepositorySnapshot,
    UntrackedPathV1,
};
use crate::text::{
    chars_of, join, join3, join_words, joined, optional_text, same_optional, same_text,
    signed_decimal, signed_text, text_of, texts, trim, trimmed,
};

verus! {

// ---------------------------------------------------------------------------------------------
// Equality of snapshots
// ---------------------------------------------------------------------------------------------

pub open spec fn optional_path(path: Option<String>) -> Option<Seq<Seq<char>>> {
    match path {
        Some(p) => Some(components(p@)),
        None => None,
    }
}

/// Two status records that say the same.
pub open spec fn same_entry(a: GitStatusEntryV1, b: GitStatusEntryV1) -> bool {
    &&& components(a.path@) == components(b.path@)
    &&& a.index_status@ == b.index_status@
    &&& a.worktree_status@ == b.worktree_status@
    &&& optional_path(a.original_path) == optional_path(b.original_path)
}

/// Two records of one visible path that no commit holds.
pub open spec fn same_untracked(a: UntrackedPathV1, b: UntrackedPathV1) -> bool {
    &&& components(a.path@) == components(b.path@)
    &&& a.file_type == b.file_type
    &&& a.size == b.size
    &&& optional_text(a.digest) == optional_text(b.digest)
}

pub open spec fn same_fingerprint(a: Fingerprint, b: Fingerprint) -> bool {
    components(a.path@) == components(b.path@) && a.evidence@ == b.evidence@
}

pub open spec fn same_entries(a: Seq<GitStatusEntryV1>, b: Seq<GitStatusEntryV1>) -> bool {
    a.len() == b.len() && forall|i: int| 0 <= i < a.len() ==> same_entry(#[trigger] a[i], b[i])
}

pub open spec fn same_untracked_paths(a: Seq<UntrackedPathV1>, b: Seq<UntrackedPathV1>) -> bool {
    a.len() == b.len() && forall|i: int| 0 <= i < a.len() ==> same_untracked(#[trigger] a[i], b[i])
}

pub open spec fn same_fingerprints(a: Seq<Fingerprint>, b: Seq<Fingerprint>) -> bool {
    a.len() == b.len() && forall|i: int|
        0 <= i < a.len() ==> same_fingerprint(#[trigger] a[i], b[i])
}

pub open spec fn same_paths(a: Seq<String>, b: Seq<String>) -> bool {
    a.len() == b.len() && forall|i: int|
        0 <= i < a.len() ==> components((#[trigger] a[i])@) == components(b[i]@)
}

/// Two snapshots that say the same of one worktree.
pub open spec fn same_snapshot(a: RepositorySnapshot, b: RepositorySnapshot) -> bool {
    &&& same_identity(a.identity, b.identity)
    &&& optional_text(a.head) == optional_text(b.head)
    &&& optional_text(a.branch) == optional_text(b.branch)
    &&& a.index_digest@ == b.index_digest@
    &&& same_entries(a.status_entries@, b.status_entries@)
    &&& a.staged_diff@ == b.staged_diff@
    &&& a.unstaged_diff@ == b.unstaged_diff@
    &&& same_untracked_paths(a.untracked@, b.untracked@)
    &&& same_paths(a.ignored_paths@, b.ignored_paths@)
    &&& same_fingerprints(a.fingerprints@, b.fingerprints@)
}

fn same_bytes(a: &Vec<u8>, b: &Vec<u8>) -> (r: bool)
    ensures
        r == (a@ == b@),
{
    if a.len() != b.len() {
        return false;
    }
    let mut i: usize = 0;
    while i < a.len()
        invariant
            i <= a.len(),
            a.len() == b.len(),
            forall|j: int| 0 <= j < i ==> a@[j] == b@[j],
        decreases a.len() - i,
    {
        if a[i] != b[i] {
            return false;
        }
        i += 1;
    }
    assert(a@ =~= b@);
    true
}

fn same_optional_path(a: &Option<String>, b: &Option<String>) -> (r: bool)
    ensures
        r == (optional_path(*a) == optional_path(*b)),
{
    match (a, b) {
        (Some(x), Some(y)) => same_path(x.as_str(), y.as_str()),
        (None, None) => true,
        _ => false,
    }
}

fn same_size(a: Option<u64>, b: Option<u64>) -> (r: bool)
    ensures
        r == (a == b),
{
    match (a, b) {
        (Some(x), Some(y)) => x == y,
        (None, None) => true,
        _ => false,
    }
}

fn are_same_entries(a: &Vec<GitStatusEntryV1>, b: &Vec<GitStatusEntryV1>) -> (r: bool)
    ensures
        r == same_entries(a@, b@),
{
    if a.len() != b.len() {
        return false;
    }
    let mut i: usize = 0;
    while i < a.len()
        invariant
            i <= a.len(),
            a.len() == b.len(),
            forall|j: int| 0 <= j < i ==> same_entry(#[trigger] a@[j], b@[j]),
        decreases a.len() - i,
    {
        if !same_path(a[i].path.as_str(), b[i].path.as_str()) || !same_text(
            a[i].index_status.as_str(),
            b[i].index_status.as_str(),
        ) || !same_text(a[i].worktree_status.as_str(), b[i].worktree_status.as_str())
            || !same_optional_path(&a[i].original_path, &b[i].original_path) {
            assert(!same_entry(a@[i as int], b@[i as int]));
            return false;
        }
        i += 1;
    }
    true
}

fn are_same_untracked(a: &Vec<UntrackedPathV1>, b: &Vec<UntrackedPathV1>) -> (r: bool)
    ensures
        r == same_untracked_paths(a@, b@),
{
    if a.len() != b.len() {
        return false;
    }
    let mut i: usize = 0;
    while i < a.len()
        invariant
            i <= a.len(),
            a.len() == b.len(),
            forall|j: int| 0 <= j < i ==> same_untracked(#[trigger] a@[j], b@[j]),
        decreases a.len() - i,
    {
        if !same_path(a[i].path.as_str(), b[i].path.as_str()) || a[i].file_type != b[i].file_type
            || !same_size(a[i].size, b[i].size) || !same_optional(&a[i].digest, &b[i].digest) {
            assert(!same_untracked(a@[i as int], b@[i as int]));
            return false;
        }
        i += 1;
    }
    true
}

fn are_same_paths(a: &Vec<String>, b: &Vec<String>) -> (r: bool)
    ensures
        r == same_paths(a@, b@),
{
    if a.len() != b.len() {
        return false;
    }
    let mut i: usize = 0;
    while i < a.len()
        invariant
            i <= a.len(),
            a.len() == b.len(),
            forall|j: int| 0 <= j < i ==> components((#[trigger] a@[j])@) == components(b@[j]@),
        decreases a.len() - i,
    {
        if !same_path(a[i].as_str(), b[i].as_str()) {
            assert(components(a@[i as int]@) != components(b@[i as int]@));
            return false;
        }
        i += 1;
    }
    true
}

fn are_same_fingerprints(a: &Vec<Fingerprint>, b: &Vec<Fingerprint>) -> (r: bool)
    ensures
        r == same_fingerprints(a@, b@),
{
    if a.len() != b.len() {
        return false;
    }
    let mut i: usize = 0;
    while i < a.len()
        invariant
            i <= a.len(),
            a.len() == b.len(),
            forall|j: int| 0 <= j < i ==> same_fingerprint(#[trigger] a@[j], b@[j]),
        decreases a.len() - i,
    {
        if !same_path(a[i].path.as_str(), b[i].path.as_str()) || !same_text(
            a[i].evidence.as_str(),
            b[i].evidence.as_str(),
        ) {
            assert(!same_fingerprint(a@[i as int], b@[i as int]));
            return false;
        }
        i += 1;
    }
    true
}

/// Whether two snapshots say the same of one worktree.
pub fn snapshots_agree(a: &RepositorySnapshot, b: &RepositorySnapshot) -> (r: bool)
    ensures
        r == same_snapshot(*a, *b),
{
    same_path(a.identity.worktree_root.as_str(), b.identity.worktree_root.as_str()) && same_path(
        a.identity.git_common_dir.as_str(),
        b.identity.git_common_dir.as_str(),
    ) && same_optional(&a.head, &b.head) && same_optional(&a.branch, &b.branch) && same_text(
        a.index_digest.as_str(),
        b.index_digest.as_str(),
    ) && are_same_entries(&a.status_entries, &b.status_entries) && same_bytes(
        &a.staged_diff,
        &b.staged_diff,
    ) && same_bytes(&a.unstaged_diff, &b.unstaged_diff) && are_same_untracked(
        &a.untracked,
        &b.untracked,
    ) && are_same_paths(&a.ignored_paths, &b.ignored_paths) && are_same_fingerprints(
        &a.fingerprints,
        &b.fingerprints,
    )
}

/// Requires a repository that is still as a checkpoint captured it.
pub fn require_current(current: &RepositorySnapshot, expected: &RepositorySnapshot) -> (r: Result<
    (),
    CoordinatorError,
>)
    ensures
        match r {
            Ok(_) => same_snapshot(*current, *expected),
            Err(e) => !same_snapshot(*current, *expected) && e@ == refusal(
                ErrorCategory::Conflict,
                "repository changed after the trusted checkpoint was captured"@,
            ),
        },
{
    if snapshots_agree(current, expected) {
        Ok(())
    } else {
        Err(
            refuse(
                ErrorCategory::Conflict,
                "repository changed after the trusted checkpoint was captured",
            ),
        )
    }
}

/// A snapshot agrees with itself.
pub proof fn snapshots_agree_with_themselves(a: RepositorySnapshot)
    ensures
        same_snapshot(a, a),
{
}

// ---------------------------------------------------------------------------------------------
// Failures
// ---------------------------------------------------------------------------------------------

/// The most characters that are kept of the diagnostics of Git.
pub const MAX_DIAGNOSTICS: usize = 2048;

/// How a Git command is named in diagnostics.
pub open spec fn command_name(arguments: Seq<Seq<char>>) -> Seq<char> {
    "git "@ + joined(arguments, " "@)
}

/// Names a Git command.
pub fn describe_command(arguments: &Vec<String>) -> (r: String)
    ensures
        r@ == command_name(texts(arguments@)),
{
    let list = join_words(arguments, " ");
    join("git ", list.as_str())
}

/// The beginning of trimmed diagnostics.
pub open spec fn bounded(stderr: Seq<char>) -> Seq<char> {
    if trimmed(stderr).len() > MAX_DIAGNOSTICS {
        trimmed(stderr).take(MAX_DIAGNOSTICS as int)
    } else {
        trimmed(stderr)
    }
}

/// A Git command that failed.
pub fn git_failure(command: String, exit_code: Option<i32>, stderr: &str) -> (r: RepositoryError)
    ensures
        r is Git,
        r->Git_command == command,
        r->Git_exit_code == exit_code,
        r->Git_diagnostics@ == bounded(stderr@),
{
    let text = trim(stderr);
    let chars = chars_of(text.as_str());
    let diagnostics = if chars.len() > MAX_DIAGNOSTICS {
        let kept = text_of(vstd::slice::slice_subrange(chars.as_slice(), 0, MAX_DIAGNOSTICS));
        assert(kept@ =~= trimmed(stderr@).take(MAX_DIAGNOSTICS as int));
        kept
    } else {
        text
    };
    RepositoryError::Git { command, exit_code, diagnostics }
}

/// How an optional exit code is written.
pub open spec fn exit_code_form(code: Option<i32>) -> Seq<char> {
    match code {
        Some(n) => "Some("@ + signed_decimal(n as int) + ")"@,
        None => "None"@,
    }
}

/// The diagnostic text of a failure.
pub open spec fn repository_text(e: RepositoryError) -> Seq<char> {
    match e {
        RepositoryError::Canonicalize { path, source } => "cannot canonicalize repository root `"@
            + path@ + "`: "@ + source@,
        RepositoryError::RootMismatch { selected, discovered } => "selected repository root `"@
            + selected@ + "` differs from Git worktree root `"@ + discovered@ + "`"@,
        RepositoryError::Git { command, exit_code, diagnostics } => "Git command `"@ + command@
            + "` failed with exit code "@ + exit_code_form(exit_code) + ": "@ + diagnostics@,
        RepositoryError::NonUtf8Path => "repository contains a non-UTF-8 path"@,
        RepositoryError::NonUtf8Output { command } => "Git command `"@ + command@
            + "` returned non-UTF-8 text"@,
        RepositoryError::BareRepository => "bare Git repositories are not supported"@,
        RepositoryError::Io { path, source } => "cannot inspect repository path `"@ + path@
            + "`: "@ + source@,
        RepositoryError::InvalidStatus(record) => "invalid Git porcelain-v2 status record: "@
            + record@,
    }
}

impl RepositoryError {
    /// The diagnostic text.
    pub fn text(&self) -> (r: String)
        ensures
            r@ == repository_text(*self),
    {
        match self {
            RepositoryError::Canonicalize { path, source } => {
                let mut r = join3("cannot canonicalize repository root `", path.as_str(), "`: ");
                r.append(source.as_str());
                r
            },
            RepositoryError::RootMismatch { selected, discovered } => {
                let mut r = join3(
                    "selected repository root `",
                    selected.as_str(),
                    "` differs from Git worktree root `",
                );
                r.append(discovered.as_str());
                r.append("`");
                r
            },
            RepositoryError::Git { command, exit_code, diagnostics } => {
                let mut r = join3("Git command `", command.as_str(), "` failed with exit code ");
                match exit_code {
                    Some(n) => {
                        let number = signed_text(*n as i64);
                        let code = join3("Some(", number.as_str(), ")");
                        r.append(code.as_str());
                    },
                    None => {
                        r.append("None");
                    },
                }
                r.append(": ");
                r.append(diagnostics.as_str());
                r
            },
            RepositoryError::NonUtf8Path => "repository contains a non-UTF-8 path".to_owned(),
            RepositoryError::NonUtf8Output { command } => join3(
                "Git command `",
                command.as_str(),
                "` returned non-UTF-8 text",
            ),
            RepositoryError::BareRepository => "bare Git repositories are not supported".to_owned(),
            RepositoryError::Io { path, source } => {
                let mut r = join3("cannot inspect repository path `", path.as_str(), "`: ");
                r.append(source.as_str());
                r
            },
            RepositoryError::InvalidStatus(record) => join(
                "invalid Git porcelain-v2 status record: ",
                record.as_str(),
            ),
        }
    }
}

/// The version that Git reports: its trimmed output, where it succeeded with text.
pub fn read_git_version(succeeded: bool, output: Result<String, String>) -> (r: Result<
    String,
    CoordinatorError,
>)
    ensures
        if !succeeded {
            r is Err && r->Err_0@ == refusal(
                ErrorCategory::RepositoryBlocked,
                "git --version failed while capturing repository evidence"@,
            )
        } else {
            match output {
                Ok(text) => r is Ok && r->Ok_0@ == trimmed(text@),
                Err(e) => r is Err && r->Err_0@ == refusal(ErrorCategory::StorageFailure, e@),
            }
        },
{
    if !succeeded {
        return Err(
            refuse(
                ErrorCategory::RepositoryBlocked,
                "git --version failed while capturing repository evidence",
            ),
        );
    }
    match output {
        Ok(text) => Ok(trim(text.as_str())),
        Err(e) => Err(CoordinatorError::storage(e)),
    }
}

} // verus!

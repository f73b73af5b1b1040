//! What repository evidence tells apart.
use vstd::prelude::*;

use crate::digest::{digest_form, hex_form};
use crate::paths::components;
use crate::repository::{
    classifies, content_form, covers, differences, entry_form, entry_prints, file_type_name,
    ignored_prints, is_item_at, lookup, names, same_scope, shows, strays, tells, tracked_form,
    untracked_form, BaselineComparison, EntryView, Fingerprint, RawObservation, RepositoryIdentity,
    RepositorySnapshot, ScopeClassification, ScopeClassificationV1, StatusView, TrackedEvidence,
    UntrackedPathV1, WorktreeContent, WriteScopeV1,
};
use crate::select::{first_found, first_says, first_where, last_found, last_missing, last_where};
use crate::snapshots::{optional_path, same_entry, same_fingerprint, same_snapshot, same_untracked};
use crate::text::optional_text;
use crate::text_laws::lies_in;

verus! {

// ---------------------------------------------------------------------------------------------
// Scopes
// ---------------------------------------------------------------------------------------------

/// A path is that of an exact scope, or is, or lies in, the subtree of another.
pub open spec fn is_within(path: Seq<char>, scope: WriteScopeV1) -> bool {
    match scope {
        WriteScopeV1::ExactFile { path: exact } => lies_in(path, exact@) && lies_in(exact@, path),
        WriteScopeV1::Subtree { path: subtree } => lies_in(path, subtree@),
    }
}

proof fn covered_paths_are_within(path: Seq<char>, scope: WriteScopeV1)
    ensures
        covers(path)(scope) == is_within(path, scope),
{
    let x = components(path);
    match scope {
        WriteScopeV1::ExactFile { path: exact } => {
            let y = components(exact@);
            if is_within(path, scope) {
                assert(x =~= y);
            }
        },
        WriteScopeV1::Subtree { path: subtree } => {
            let y = components(subtree@);
            if y.len() <= x.len() {
                let t = x.take(y.len() as int);
                if lies_in(path, subtree@) {
                    assert(t =~= y);
                }
                if t == y {
                    assert forall|i: int| 0 <= i < y.len() implies #[trigger] y[i] == x[i] by {
                        assert(t[i] == x[i]);
                    }
                }
            }
        },
    }
}

/// A path is in scope exactly where it is within one of the scopes, and the first of those is
/// named.
pub proof fn paths_in_a_scope_are_in_scope(
    r: ScopeClassificationV1,
    path: Seq<char>,
    scopes: Seq<WriteScopeV1>,
    i: int,
)
    requires
        classifies(r, path, scopes),
    ensures
        r.path@ == path,
        r.classification == ScopeClassification::InScope <==> (exists|k: int|
            0 <= k < scopes.len() && is_within(path, #[trigger] scopes[k])),
        0 <= i < scopes.len() && is_within(path, scopes[i]) && (forall|k: int|
            0 <= k < i ==> !is_within(path, #[trigger] scopes[k])) ==> r.matched_scope is Some
            && same_scope(r.matched_scope->0, scopes[i]),
        (forall|k: int| 0 <= k < scopes.len() ==> !is_within(path, #[trigger] scopes[k]))
            ==> r.matched_scope is None,
{
    let p = covers(path);
    first_says(scopes, p);
    assert forall|k: int| 0 <= k < scopes.len() implies p(#[trigger] scopes[k]) == is_within(
        path,
        scopes[k],
    ) by {
        covered_paths_are_within(path, scopes[k]);
    }
    if exists|k: int| 0 <= k < scopes.len() && is_within(path, #[trigger] scopes[k]) {
        let k = choose|k: int| 0 <= k < scopes.len() && is_within(path, #[trigger] scopes[k]);
        assert(p(scopes[k]));
    }
    if let Some(k) = first_where(scopes, p) {
        assert(is_within(path, scopes[k]));
    }
    if 0 <= i < scopes.len() && is_within(path, scopes[i]) && (forall|k: int|
        0 <= k < i ==> !is_within(path, #[trigger] scopes[k])) {
        assert forall|k: int| 0 <= k < i implies !p(#[trigger] scopes[k]) by {
            assert(!is_within(path, scopes[k]));
        }
        first_found(scopes, p, i);
    }
}

/// A comparison strays exactly where a path whose evidence differs is within none of the scopes.
pub proof fn comparisons_stray_outside_the_scopes(
    c: BaselineComparison,
    a: Seq<Fingerprint>,
    b: Seq<Fingerprint>,
    scopes: Seq<WriteScopeV1>,
)
    requires
        differences(c.changed_paths@, a, b),
        c.scope_classifications@.len() == c.changed_paths@.len(),
        forall|i: int|
            0 <= i < c.changed_paths@.len() ==> classifies(
                #[trigger] c.scope_classifications@[i],
                c.changed_paths@[i]@,
                scopes,
            ),
    ensures
        strays(c) <==> (exists|i: int|
            0 <= i < c.changed_paths@.len() && forall|k: int|
                0 <= k < scopes.len() ==> !is_within(
                    (#[trigger] c.changed_paths@[i])@,
                    #[trigger] scopes[k],
                )),
        forall|i: int|
            0 <= i < c.changed_paths@.len() ==> lookup(
                a,
                components((#[trigger] c.changed_paths@[i])@),
            ) != lookup(b, components(c.changed_paths@[i]@)),
        forall|key: Seq<Seq<char>>|
            #[trigger] lookup(a, key) != lookup(b, key) ==> exists|i: int|
                0 <= i < c.changed_paths@.len() && components((#[trigger] c.changed_paths@[i])@)
                    == key,
{
    let list = c.changed_paths@;
    assert forall|i: int| 0 <= i < list.len() implies (
    c.scope_classifications@[i].classification == ScopeClassification::OutOfScope) == (forall|k: int|
        0 <= k < scopes.len() ==> !is_within((#[trigger] list[i])@, #[trigger] scopes[k])) by {
        paths_in_a_scope_are_in_scope(c.scope_classifications@[i], list[i]@, scopes, 0);
        let outside = forall|k: int|
            0 <= k < scopes.len() ==> !is_within(list[i]@, #[trigger] scopes[k]);
        if !outside {
            let k = choose|k: int| 0 <= k < scopes.len() && is_within(list[i]@, #[trigger] scopes[k]);
            assert(is_within(list[i]@, scopes[k]));
        }
    }
    if strays(c) {
        let i = choose|i: int|
            0 <= i < c.scope_classifications@.len() && (
            #[trigger] c.scope_classifications@[i]).classification
                == ScopeClassification::OutOfScope;
        assert(forall|k: int|
            0 <= k < scopes.len() ==> !is_within(list[i]@, #[trigger] scopes[k]));
    }
    if exists|i: int|
        0 <= i < list.len() && forall|k: int|
            0 <= k < scopes.len() ==> !is_within((#[trigger] list[i])@, #[trigger] scopes[k]) {
        let i = choose|i: int|
            0 <= i < list.len() && forall|k: int|
                0 <= k < scopes.len() ==> !is_within((#[trigger] list[i])@, #[trigger] scopes[k]);
        assert(c.scope_classifications@[i].classification == ScopeClassification::OutOfScope);
    }
    assert forall|i: int| 0 <= i < list.len() implies lookup(
        a,
        components((#[trigger] list[i])@),
    ) != lookup(b, components(list[i]@)) by {
        assert(names(list, components(list[i]@)));
    }
    assert forall|key: Seq<Seq<char>>| #[trigger] lookup(a, key) != lookup(b, key) implies exists|
        i: int,
    | 0 <= i < list.len() && components((#[trigger] list[i])@) == key by {
        assert(names(list, key));
    }
}

// ---------------------------------------------------------------------------------------------
// Forms
// ---------------------------------------------------------------------------------------------

/// Evidence tells a missing file, a link, a file and anything else apart, and files and links by
/// the digests of what they hold.
pub proof fn contents_are_told_apart(a: WorktreeContent, b: WorktreeContent)
    requires
        content_form(a) == content_form(b),
    ensures
        a is Missing == b is Missing,
        a is Symlink == b is Symlink,
        a is File == b is File,
        a is Other == b is Other,
        a is File ==> digest_form(a->File_0@) == digest_form(b->File_0@),
        a is Symlink ==> digest_form(vstd::utf8::encode_utf8(a->Symlink_0@)) == digest_form(
            vstd::utf8::encode_utf8(b->Symlink_0@),
        ),
{
    reveal_strlit("missing");
    reveal_strlit("symlink:");
    reveal_strlit("file:");
    reveal_strlit("other");
    let (x, y) = (content_form(a), content_form(b));
    assert(x[0] == y[0]);
    if a is File && b is File {
        assert(x.skip(5) =~= digest_form(a->File_0@));
        assert(y.skip(5) =~= digest_form(b->File_0@));
    }
    if a is Symlink && b is Symlink {
        assert(x.skip(8) =~= digest_form(vstd::utf8::encode_utf8(a->Symlink_0@)));
        assert(y.skip(8) =~= digest_form(vstd::utf8::encode_utf8(b->Symlink_0@)));
    }
}

/// Evidence of an untracked path begins with what kind of file it is, and tells the kinds apart.
pub proof fn kinds_of_untracked_files_are_told_apart(a: UntrackedPathV1, b: UntrackedPathV1)
    requires
        untracked_form(a) == untracked_form(b),
    ensures
        a.file_type == b.file_type,
{
    reveal_strlit("untracked:");
    reveal_strlit("Regular");
    reveal_strlit("Symlink");
    reveal_strlit("Other");
    reveal_strlit(":");
    let (x, y) = (untracked_form(a), untracked_form(b));
    assert(x[10] == file_type_name(a.file_type)[0]);
    assert(y[10] == file_type_name(b.file_type)[0]);
}

/// Evidence of a tracked path tells its states in the index and in the worktree, what the index
/// holds and what stands in the worktree apart.
pub proof fn tracked_files_are_told_apart(
    a: EntryView,
    x: TrackedEvidence,
    b: EntryView,
    y: TrackedEvidence,
)
    requires
        tracked_form(a, x) == tracked_form(b, y),
        a.index_status.len() == 1,
        b.index_status.len() == 1,
        a.worktree_status.len() == 1,
        b.worktree_status.len() == 1,
    ensures
        a.index_status == b.index_status,
        a.worktree_status == b.worktree_status,
        x.index@.len() == y.index@.len() ==> hex_form(x.index@) == hex_form(y.index@) && x.content@
            == y.content@,
{
    reveal_strlit(":");
    let (f, g) = (tracked_form(a, x), tracked_form(b, y));
    assert(f[0] == a.index_status[0] && g[0] == b.index_status[0]);
    assert(f[2] == a.worktree_status[0] && g[2] == b.worktree_status[0]);
    assert(a.index_status =~= b.index_status);
    assert(a.worktree_status =~= b.worktree_status);
    if x.index@.len() == y.index@.len() {
        let (p, q) = (hex_form(x.index@), hex_form(y.index@));
        assert(p.len() == q.len());
        let n = p.len() as int;
        assert(f.subrange(4, 4 + n) =~= p);
        assert(g.subrange(4, 4 + n) =~= q);
        assert(f.skip(5 + n) =~= x.content@);
        assert(g.skip(5 + n) =~= y.content@);
    }
}

// ---------------------------------------------------------------------------------------------
// Fingerprints
// ---------------------------------------------------------------------------------------------

/// A record speaks of a path: as its own, or as the one that its file came from.
pub open spec fn speaks_of(entry: EntryView, key: Seq<Seq<char>>) -> bool {
    components(entry.path) == key || (entry.original_path is Some && components(
        entry.original_path->0,
    ) == key)
}

proof fn later_records_count(
    list: Seq<EntryView>,
    untracked: Seq<UntrackedPathV1>,
    indexed: Seq<TrackedEvidence>,
    n: nat,
    i: int,
    key: Seq<Seq<char>>,
)
    requires
        0 <= i < n <= list.len(),
        n <= indexed.len(),
        speaks_of(list[i], key),
        forall|j: int| i < j < n ==> !speaks_of(#[trigger] list[j], key),
    ensures
        ({
            let prints = entry_prints(list, untracked, indexed, n);
            let form = entry_form(list[i], untracked, indexed[i]);
            let came = list[i].original_path is Some && components(list[i].original_path->0) == key;
            prints.contains_key(key) && prints[key] == if came {
                "source:"@ + form
            } else {
                form
            }
        }),
    decreases n,
{
    if i < n - 1 {
        later_records_count(list, untracked, indexed, (n - 1) as nat, i, key);
        assert(!speaks_of(list[n - 1], key));
    }
}

proof fn unspoken_paths_have_no_print(
    list: Seq<EntryView>,
    untracked: Seq<UntrackedPathV1>,
    indexed: Seq<TrackedEvidence>,
    n: nat,
    key: Seq<Seq<char>>,
)
    requires
        n <= list.len(),
        n <= indexed.len(),
        forall|j: int| 0 <= j < n ==> !speaks_of(#[trigger] list[j], key),
    ensures
        !entry_prints(list, untracked, indexed, n).contains_key(key),
    decreases n,
{
    if n > 0 {
        unspoken_paths_have_no_print(list, untracked, indexed, (n - 1) as nat, key);
        assert(!speaks_of(list[n - 1], key));
    }
}

proof fn ignored_paths_are_marked(
    base: Map<Seq<Seq<char>>, Seq<char>>,
    ignored: Seq<Seq<char>>,
    n: nat,
    key: Seq<Seq<char>>,
)
    requires
        n <= ignored.len(),
    ensures
        ({
            let prints = ignored_prints(base, ignored, n);
            let among = exists|j: int| 0 <= j < n && components(#[trigger] ignored[j]) == key;
            &&& among ==> prints.contains_key(key) && prints[key] == "ignored-visible"@
            &&& !among ==> prints.contains_key(key) == base.contains_key(key) && (
            base.contains_key(key) ==> prints[key] == base[key])
        }),
    decreases n,
{
    if n > 0 {
        ignored_paths_are_marked(base, ignored, (n - 1) as nat, key);
        let before = exists|j: int|
            0 <= j < n - 1 && components(#[trigger] ignored[j]) == key;
        if before {
            let j = choose|j: int| 0 <= j < n - 1 && components(#[trigger] ignored[j]) == key;
            assert(components(ignored[j]) == key);
        }
        if components(ignored[n - 1]) == key {
            assert(components(ignored[n - 1]) == key);
        }
    }
}

/// A snapshot keeps one piece of evidence for each path that the status speaks of: an ignored path
/// is marked as such; else the last record that speaks of the path counts, marked where the path is
/// the one that its file came from. It is that of the file itself where the path is untracked, and
/// else gives both states, the index and the content. Of other paths it keeps none.
pub proof fn every_path_of_the_status_has_evidence(
    s: RepositorySnapshot,
    identity: RepositoryIdentity,
    raw: RawObservation,
    seen: StatusView,
    i: int,
    key: Seq<Seq<char>>,
)
    requires
        shows(s, identity, raw, seen),
        raw.indexed@.len() == seen.entries.len(),
    ensures
        ({
            let found = lookup(s.fingerprints@, key);
            let ignored = exists|j: int|
                0 <= j < seen.ignored.len() && components(#[trigger] seen.ignored[j]) == key;
            let last = 0 <= i < seen.entries.len() && speaks_of(seen.entries[i], key) && forall|
                j: int,
            |
                i < j < seen.entries.len() ==> !speaks_of(#[trigger] seen.entries[j], key);
            let e = seen.entries[i];
            let came = e.original_path is Some && components(e.original_path->0) == key;
            let known = forall|k: int|
                0 <= k < s.untracked@.len() ==> components((#[trigger] s.untracked@[k]).path@)
                    != components(e.path);
            let told = e.index_status + ":"@ + e.worktree_status + ":"@ + hex_form(
                raw.indexed@[i].index@,
            ) + ":"@ + raw.indexed@[i].content@;
            &&& ignored ==> found == Some("ignored-visible"@)
            &&& !ignored && last && known && !came ==> found == Some(told)
            &&& !ignored && last && known && came ==> found == Some("source:"@ + told)
            &&& !ignored && last && !came ==> forall|k: int|
                0 <= k < s.untracked@.len() && components((#[trigger] s.untracked@[k]).path@)
                    == components(e.path) && (forall|l: int|
                    k < l < s.untracked@.len() ==> components((#[trigger] s.untracked@[l]).path@)
                        != components(e.path)) ==> found == Some(untracked_form(s.untracked@[k]))
            &&& !ignored && (forall|j: int|
                0 <= j < seen.entries.len() ==> !speaks_of(#[trigger] seen.entries[j], key))
                ==> found is None
        }),
{
    let base = entry_prints(seen.entries, s.untracked@, raw.indexed@, raw.indexed@.len());
    let n = seen.entries.len();
    ignored_paths_are_marked(base, seen.ignored, seen.ignored.len(), key);
    let all = ignored_prints(base, seen.ignored, seen.ignored.len());
    assert(tells(s.fingerprints@, all));
    let last = 0 <= i < n && speaks_of(seen.entries[i], key) && forall|j: int|
        i < j < n ==> !speaks_of(#[trigger] seen.entries[j], key);
    if last {
        later_records_count(seen.entries, s.untracked@, raw.indexed@, n, i, key);
        let e = seen.entries[i];
        let p = is_item_at(e.path);
        if forall|k: int|
            0 <= k < s.untracked@.len() ==> components((#[trigger] s.untracked@[k]).path@)
                != components(e.path) {
            assert forall|k: int| 0 <= k < s.untracked@.len() implies !p(
                #[trigger] s.untracked@[k],
            ) by {}
            last_missing(s.untracked@, p);
        }
        assert forall|k: int|
            0 <= k < s.untracked@.len() && components((#[trigger] s.untracked@[k]).path@)
                == components(e.path) && (forall|l: int|
                k < l < s.untracked@.len() ==> components((#[trigger] s.untracked@[l]).path@)
                    != components(e.path)) implies last_where(s.untracked@, p) == Some(k) by {
            assert forall|l: int| k < l < s.untracked@.len() implies !p(
                #[trigger] s.untracked@[l],
            ) by {}
            last_found(s.untracked@, p, k);
        }
    }
    if forall|j: int| 0 <= j < n ==> !speaks_of(#[trigger] seen.entries[j], key) {
        unspoken_paths_have_no_print(seen.entries, s.untracked@, raw.indexed@, n, key);
    }
}

// ---------------------------------------------------------------------------------------------
// Snapshots
// ---------------------------------------------------------------------------------------------

/// Snapshots that agree are of one worktree and agree in its head, its branch, its index, both
/// diffs, the paths and the states of all records, the untracked files and all evidence.
pub proof fn snapshots_agree_in_everything(a: RepositorySnapshot, b: RepositorySnapshot, i: int)
    requires
        same_snapshot(a, b),
    ensures
        components(a.identity.worktree_root@) == components(b.identity.worktree_root@),
        components(a.identity.git_common_dir@) == components(b.identity.git_common_dir@),
        optional_text(a.head) == optional_text(b.head),
        optional_text(a.branch) == optional_text(b.branch),
        a.index_digest@ == b.index_digest@,
        a.staged_diff@ == b.staged_diff@,
        a.unstaged_diff@ == b.unstaged_diff@,
        a.status_entries@.len() == b.status_entries@.len(),
        a.untracked@.len() == b.untracked@.len(),
        a.ignored_paths@.len() == b.ignored_paths@.len(),
        a.fingerprints@.len() == b.fingerprints@.len(),
        0 <= i < a.status_entries@.len() ==> {
            let (x, y) = (a.status_entries@[i], b.status_entries@[i]);
            &&& components(x.path@) == components(y.path@)
            &&& x.index_status@ == y.index_status@
            &&& x.worktree_status@ == y.worktree_status@
            &&& x.original_path is Some == y.original_path is Some
            &&& x.original_path is Some ==> components(x.original_path->0@) == components(
                y.original_path->0@,
            )
        },
        0 <= i < a.untracked@.len() ==> {
            let (x, y) = (a.untracked@[i], b.untracked@[i]);
            &&& components(x.path@) == components(y.path@)
            &&& x.file_type == y.file_type
            &&& x.size == y.size
            &&& optional_text(x.digest) == optional_text(y.digest)
        },
        0 <= i < a.ignored_paths@.len() ==> components(a.ignored_paths@[i]@) == components(
            b.ignored_paths@[i]@,
        ),
        0 <= i < a.fingerprints@.len() ==> components(a.fingerprints@[i].path@) == components(
            b.fingerprints@[i].path@,
        ) && a.fingerprints@[i].evidence@ == b.fingerprints@[i].evidence@,
{
    if 0 <= i < a.status_entries@.len() {
        let (x, y) = (a.status_entries@[i], b.status_entries@[i]);
        assert(same_entry(x, y));
        assert(optional_path(x.original_path) == optional_path(y.original_path));
    }
    if 0 <= i < a.untracked@.len() {
        assert(same_untracked(a.untracked@[i], b.untracked@[i]));
    }
    if 0 <= i < a.ignored_paths@.len() {
        assert(components((a.ignored_paths@[i])@) == components(b.ignored_paths@[i]@));
    }
    if 0 <= i < a.fingerprints@.len() {
        assert(same_fingerprint(a.fingerprints@[i], b.fingerprints@[i]));
    }
}

} // verus!

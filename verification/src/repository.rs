//! Git worktree observation: status records, fingerprints, comparison and write scopes.
use vstd::prelude::*;
use vstd::utf8::*;

use crate::digest::{digest_bytes, digest_form, digest_text, hex_form, hex_text};
use crate::error::{refusal, refuse, CoordinatorError, ErrorCategory};
use crate::paths::{
    components, is_below, lists_view, path_is_below, path_rank, path_rank_passes_on,
    path_rank_says, pieces, rank_path_texts, split_bytes, split_chars, Rank,
};
use crate::select::{
    first_found, first_missing, first_says, first_where, last_found, last_missing, last_where,
};
use crate::text::{
    chars_of, decimal, decimal_text, has_prefix, join, join3, optional_text, part_of, same_text,
    starts_with, text_of, trim, trimmed,
};

verus! {

// ---------------------------------------------------------------------------------------------
// Vocabulary
// ---------------------------------------------------------------------------------------------

/// Canonical identity used to distinguish one Git worktree from another.
#[derive(Debug)]
pub struct RepositoryIdentity {
    /// Canonical root of this worktree.
    pub worktree_root: String,
    /// Canonical common directory shared by linked worktrees.
    pub git_common_dir: String,
}

/// One normalized status record.
#[derive(Debug)]
pub struct GitStatusEntryV1 {
    pub path: String,
    pub index_status: String,
    pub worktree_status: String,
    pub original_path: Option<String>,
}

/// What a status record says.
pub struct EntryView {
    pub path: Seq<char>,
    pub index_status: Seq<char>,
    pub worktree_status: Seq<char>,
    pub original_path: Option<Seq<char>>,
}

impl View for GitStatusEntryV1 {
    type V = EntryView;

    open spec fn view(&self) -> EntryView {
        EntryView {
            path: self.path@,
            index_status: self.index_status@,
            worktree_status: self.worktree_status@,
            original_path: optional_text(self.original_path),
        }
    }
}

/// A failure to discover or observe a repository.
#[derive(Debug)]
#[allow(inconsistent_fields)]
pub enum RepositoryError {
    /// The selected root cannot be resolved.
    Canonicalize { path: String, source: String },
    /// The selected path is not exactly the discovered worktree root.
    RootMismatch { selected: String, discovered: String },
    /// Git rejected a discovery or observation command.
    Git { command: String, exit_code: Option<i32>, diagnostics: String },
    /// A path is not valid UTF-8.
    NonUtf8Path,
    /// Git output expected to be textual was not valid UTF-8.
    NonUtf8Output { command: String },
    /// Bare repositories do not have a Worker-owned worktree.
    BareRepository,
    /// Filesystem evidence could not be read.
    Io { path: String, source: String },
    /// Git returned a status record outside the supported grammar.
    InvalidStatus(String),
}

/// Why status output is refused.
pub enum Fault {
    NonUtf8Path,
    InvalidStatus(Seq<char>),
}

pub open spec fn fault_of(e: RepositoryError) -> Option<Fault> {
    match e {
        RepositoryError::NonUtf8Path => Some(Fault::NonUtf8Path),
        RepositoryError::InvalidStatus(record) => Some(Fault::InvalidStatus(record@)),
        _ => None,
    }
}

// ---------------------------------------------------------------------------------------------
// Status records
// ---------------------------------------------------------------------------------------------

/// `std::str::from_utf8`: the text of bytes that are valid UTF-8, and nothing for other bytes.
#[verifier::external_body]
fn utf8_text(bytes: &[u8]) -> (r: Option<String>)
    ensures
        match r {
            Some(text) => valid_utf8(bytes@) && text@ == decode_utf8(bytes@),
            None => !valid_utf8(bytes@),
        },
{
    std::str::from_utf8(bytes).ok().map(|text| text.to_owned())
}

/// What status output says.
pub struct StatusView {
    pub head: Option<Seq<char>>,
    pub branch: Option<Seq<char>>,
    pub entries: Seq<EntryView>,
    pub untracked: Seq<Seq<char>>,
    pub ignored: Seq<Seq<char>>,
}

pub open spec fn no_status() -> StatusView {
    StatusView {
        head: None,
        branch: None,
        entries: Seq::empty(),
        untracked: Seq::empty(),
        ignored: Seq::empty(),
    }
}

/// The text behind a prefix.
pub open spec fn behind(record: Seq<char>, prefix: Seq<char>) -> Seq<char> {
    record.skip(prefix.len() as int)
}

/// A path as Git writes it: anything but nothing.
pub open spec fn a_path(text: Seq<char>) -> Result<Seq<char>, Fault> {
    if text.len() == 0 {
        Err(Fault::InvalidStatus(text))
    } else {
        Ok(text)
    }
}

/// A text without the slashes at its end.
pub open spec fn without_slashes(text: Seq<char>) -> Seq<char>
    decreases text.len(),
{
    if text.len() > 0 && text.last() == '/' {
        without_slashes(text.drop_last())
    } else {
        text
    }
}

/// The text of one byte of a two-byte status field.
pub open spec fn status_letter(field: Seq<char>, at: int) -> Seq<char> {
    seq![encode_utf8(field)[at] as char]
}

/// An ordinary or unmerged record: its fields, the last of which is the path.
pub open spec fn ordinary(record: Seq<char>) -> Result<EntryView, Fault> {
    let count: nat = if has_prefix(record, "1 "@) {
        9
    } else {
        11
    };
    let fields = pieces(record, ' ', Some(count));
    if fields.len() != count || encode_utf8(fields[1]).len() != 2 {
        Err(Fault::InvalidStatus(record))
    } else {
        match a_path(fields[count - 1]) {
            Err(e) => Err(e),
            Ok(path) => Ok(
                EntryView {
                    path,
                    index_status: status_letter(fields[1], 0),
                    worktree_status: status_letter(fields[1], 1),
                    original_path: None,
                },
            ),
        }
    }
}

/// A renamed or copied record, with the path it came from in the record behind it.
pub open spec fn renamed(record: Seq<char>, original: Seq<char>) -> Result<EntryView, Fault> {
    let fields = pieces(record, ' ', Some(10));
    if fields.len() != 10 || encode_utf8(fields[1]).len() != 2 {
        Err(Fault::InvalidStatus(record))
    } else {
        match a_path(fields[9]) {
            Err(e) => Err(e),
            Ok(path) => match a_path(original) {
                Err(e) => Err(e),
                Ok(source) => Ok(
                    EntryView {
                        path,
                        index_status: status_letter(fields[1], 0),
                        worktree_status: status_letter(fields[1], 1),
                        original_path: Some(source),
                    },
                ),
            },
        }
    }
}

/// One record that stands alone, added to what was read before.
pub open spec fn read_record(seen: StatusView, record: Seq<char>) -> Result<StatusView, Fault> {
    if has_prefix(record, "# branch.oid "@) {
        let value = behind(record, "# branch.oid "@);
        Ok(
            StatusView {
                head: if value == "(initial)"@ {
                    None
                } else {
                    Some(value)
                },
                ..seen
            },
        )
    } else if has_prefix(record, "# branch.head "@) {
        let value = behind(record, "# branch.head "@);
        Ok(
            StatusView {
                branch: if value == "(detached)"@ {
                    None
                } else {
                    Some(value)
                },
                ..seen
            },
        )
    } else if has_prefix(record, "? "@) {
        match a_path(behind(record, "? "@)) {
            Err(e) => Err(e),
            Ok(path) => Ok(
                StatusView {
                    untracked: seen.untracked.push(path),
                    entries: seen.entries.push(
                        EntryView {
                            path,
                            index_status: "?"@,
                            worktree_status: "?"@,
                            original_path: None,
                        },
                    ),
                    ..seen
                },
            ),
        }
    } else if has_prefix(record, "! "@) {
        match a_path(without_slashes(behind(record, "! "@))) {
            Err(e) => Err(e),
            Ok(path) => Ok(StatusView { ignored: seen.ignored.push(path), ..seen }),
        }
    } else if has_prefix(record, "1 "@) || has_prefix(record, "u "@) {
        match ordinary(record) {
            Err(e) => Err(e),
            Ok(entry) => Ok(StatusView { entries: seen.entries.push(entry), ..seen }),
        }
    } else if has_prefix(record, "# "@) {
        Ok(seen)
    } else {
        Err(Fault::InvalidStatus(record))
    }
}

/// Whether a record is followed by the path that its file came from.
pub open spec fn takes_two(record: Seq<char>) -> bool {
    &&& !has_prefix(record, "# branch.oid "@)
    &&& !has_prefix(record, "# branch.head "@)
    &&& !has_prefix(record, "? "@)
    &&& !has_prefix(record, "! "@)
    &&& !has_prefix(record, "1 "@)
    &&& !has_prefix(record, "u "@)
    &&& has_prefix(record, "2 "@)
}

/// The records from the `i`th on, added to what was read before.
pub open spec fn read_records(records: Seq<Seq<u8>>, i: int, seen: StatusView) -> Result<
    StatusView,
    Fault,
>
    decreases records.len() - i,
{
    if i < 0 || i >= records.len() {
        Ok(seen)
    } else if records[i].len() == 0 {
        read_records(records, i + 1, seen)
    } else if !valid_utf8(records[i]) {
        Err(Fault::NonUtf8Path)
    } else {
        let record = decode_utf8(records[i]);
        if takes_two(record) {
            if i + 1 >= records.len() {
                Err(Fault::InvalidStatus(record))
            } else if !valid_utf8(records[i + 1]) {
                Err(Fault::NonUtf8Path)
            } else {
                match renamed(record, decode_utf8(records[i + 1])) {
                    Err(e) => Err(e),
                    Ok(entry) => read_records(
                        records,
                        i + 2,
                        StatusView { entries: seen.entries.push(entry), ..seen },
                    ),
                }
            }
        } else {
            match read_record(seen, record) {
                Err(e) => Err(e),
                Ok(next) => read_records(records, i + 1, next),
            }
        }
    }
}

/// Orders by the paths that `key` gives: an element goes behind all that do not stand after it.
pub open spec fn place<A>(s: Seq<A>, x: A, key: spec_fn(A) -> Seq<char>) -> Seq<A>
    decreases s.len(),
{
    if s.len() == 0 || path_rank(components(key(s.last())), components(key(x))) != Rank::After {
        s.push(x)
    } else {
        place(s.drop_last(), x, key).push(s.last())
    }
}

/// The elements in the order of their paths; elements of the same path keep their order.
pub open spec fn in_order<A>(s: Seq<A>, key: spec_fn(A) -> Seq<char>) -> Seq<A>
    decreases s.len(),
{
    if s.len() == 0 {
        s
    } else {
        place(in_order(s.drop_last(), key), s.last(), key)
    }
}

pub open spec fn entry_path() -> spec_fn(EntryView) -> Seq<char> {
    |e: EntryView| e.path
}

pub open spec fn itself() -> spec_fn(Seq<char>) -> Seq<char> {
    |p: Seq<char>| p
}

/// What status output says, its paths in order.
pub open spec fn status(bytes: Seq<u8>) -> Result<StatusView, Fault> {
    match read_records(pieces(bytes, 0u8, None), 0, no_status()) {
        Err(e) => Err(e),
        Ok(seen) => Ok(
            StatusView {
                entries: in_order(seen.entries, entry_path()),
                untracked: in_order(seen.untracked, itself()),
                ignored: in_order(seen.ignored, itself()),
                ..seen
            },
        ),
    }
}

/// Nothing stands after what follows it.
pub open spec fn ordered<A>(s: Seq<A>, key: spec_fn(A) -> Seq<char>) -> bool {
    forall|i: int, j: int|
        0 <= i < j < s.len() ==> path_rank(
            components(key(#[trigger] s[i])),
            components(key(#[trigger] s[j])),
        ) != Rank::After
}

proof fn not_after_passes_on(a: Seq<Seq<char>>, b: Seq<Seq<char>>, c: Seq<Seq<char>>)
    requires
        path_rank(a, b) != Rank::After,
        path_rank(b, c) != Rank::After,
    ensures
        path_rank(a, c) != Rank::After,
{
    path_rank_says(a, b);
    path_rank_says(b, c);
    path_rank_says(a, c);
    if path_rank(a, b) == Rank::Before && path_rank(b, c) == Rank::Before {
        path_rank_passes_on(a, b, c);
    }
}

proof fn placing_orders<A>(s: Seq<A>, x: A, key: spec_fn(A) -> Seq<char>)
    requires
        ordered(s, key),
    ensures
        ordered(place(s, x, key), key),
        place(s, x, key).to_multiset() == s.to_multiset().insert(x),
        place(s, x, key).len() == s.len() + 1,
        forall|i: int|
            0 <= i < place(s, x, key).len() ==> (#[trigger] place(s, x, key)[i]) == x || s.contains(
                place(s, x, key)[i],
            ),
    decreases s.len(),
{
    let r = place(s, x, key);
    s.to_multiset_ensures();
    if s.len() == 0 || path_rank(components(key(s.last())), components(key(x))) != Rank::After {
        assert forall|i: int, j: int| 0 <= i < j < r.len() implies path_rank(
            components(key(#[trigger] r[i])),
            components(key(#[trigger] r[j])),
        ) != Rank::After by {
            if j == s.len() && i < s.len() - 1 {
                assert(path_rank(components(key(s[i])), components(key(s[s.len() - 1])))
                    != Rank::After);
                not_after_passes_on(
                    components(key(s[i])),
                    components(key(s.last())),
                    components(key(x)),
                );
            }
        }
    } else {
        let rest = s.drop_last();
        assert forall|i: int, j: int| 0 <= i < j < rest.len() implies path_rank(
            components(key(#[trigger] rest[i])),
            components(key(#[trigger] rest[j])),
        ) != Rank::After by {
            assert(rest[i] == s[i] && rest[j] == s[j]);
        }
        placing_orders(rest, x, key);
        let placed = place(rest, x, key);
        placed.to_multiset_ensures();
        assert(s =~= rest.push(s.last()));
        rest.to_multiset_ensures();
        path_rank_says(components(key(s.last())), components(key(x)));
        assert forall|i: int| 0 <= i < placed.len() implies path_rank(
            components(key(#[trigger] placed[i])),
            components(key(s.last())),
        ) != Rank::After by {
            if placed[i] != x {
                assert(rest.contains(placed[i]));
                let k = choose|k: int| 0 <= k < rest.len() && rest[k] == placed[i];
                assert(s[k] == placed[i]);
                assert(path_rank(components(key(s[k])), components(key(s[s.len() - 1])))
                    != Rank::After);
            }
        }
        assert forall|i: int, j: int| 0 <= i < j < r.len() implies path_rank(
            components(key(#[trigger] r[i])),
            components(key(#[trigger] r[j])),
        ) != Rank::After by {
            if j < placed.len() {
                assert(r[i] == placed[i] && r[j] == placed[j]);
            } else {
                assert(r[i] == placed[i] && r[j] == s.last());
            }
        }
        assert(r.to_multiset() =~= s.to_multiset().insert(x));
        assert forall|i: int| 0 <= i < r.len() implies (#[trigger] r[i]) == x || s.contains(
            r[i],
        ) by {
            if i < placed.len() {
                assert(r[i] == placed[i]);
                if r[i] != x {
                    assert(rest.contains(placed[i]));
                    let k = choose|k: int| 0 <= k < rest.len() && rest[k] == placed[i];
                    assert(s[k] == r[i]);
                }
            } else {
                assert(s[s.len() - 1] == r[i]);
            }
        }
    }
}

/// Putting elements in order keeps each of them and leaves none before one that it stands after.
pub proof fn order_is_kept<A>(s: Seq<A>, key: spec_fn(A) -> Seq<char>)
    ensures
        ordered(in_order(s, key), key),
        in_order(s, key).to_multiset() == s.to_multiset(),
    decreases s.len(),
{
    if s.len() > 0 {
        order_is_kept(s.drop_last(), key);
        placing_orders(in_order(s.drop_last(), key), s.last(), key);
        assert(s =~= s.drop_last().push(s.last()));
        s.drop_last().to_multiset_ensures();
    }
}

proof fn place_is_insert<A>(s: Seq<A>, x: A, key: spec_fn(A) -> Seq<char>, k: int)
    requires
        0 <= k <= s.len(),
        forall|j: int|
            k <= j < s.len() ==> path_rank(components(key(#[trigger] s[j])), components(key(x)))
                == Rank::After,
        k > 0 ==> path_rank(components(key(s[k - 1])), components(key(x))) != Rank::After,
    ensures
        place(s, x, key) == s.insert(k, x),
    decreases s.len(),
{
    if k == s.len() {
        assert(s.insert(k, x) =~= s.push(x));
    } else {
        assert forall|j: int| k <= j < s.len() - 1 implies path_rank(
            components(key(#[trigger] s.drop_last()[j])),
            components(key(x)),
        ) == Rank::After by {
            assert(s.drop_last()[j] == s[j]);
        }
        place_is_insert(s.drop_last(), x, key, k);
        assert(path_rank(components(key(s[s.len() - 1])), components(key(x))) == Rank::After);
        assert(s.insert(k, x) =~= s.drop_last().insert(k, x).push(s.last()));
    }
}

/// Parsed status output.
#[derive(Debug)]
pub struct ParsedStatus {
    pub head: Option<String>,
    pub branch: Option<String>,
    pub status_entries: Vec<GitStatusEntryV1>,
    pub untracked_paths: Vec<String>,
    pub ignored_paths: Vec<String>,
}

/// View of a list of entries.
pub open spec fn entries(v: Seq<GitStatusEntryV1>) -> Seq<EntryView> {
    Seq::new(v.len(), |i: int| v[i]@)
}

/// View of a list of texts.
pub open spec fn path_texts(v: Seq<String>) -> Seq<Seq<char>> {
    Seq::new(v.len(), |i: int| v[i]@)
}

impl View for ParsedStatus {
    type V = StatusView;

    open spec fn view(&self) -> StatusView {
        StatusView {
            head: optional_text(self.head),
            branch: optional_text(self.branch),
            entries: entries(self.status_entries@),
            untracked: path_texts(self.untracked_paths@),
            ignored: path_texts(self.ignored_paths@),
        }
    }
}

fn insert_entry(v: &mut Vec<GitStatusEntryV1>, e: GitStatusEntryV1)
    ensures
        entries(final(v)@) == place(entries(old(v)@), e@, entry_path()),
{
    let mut k: usize = v.len();
    while k > 0 && rank_path_texts(v[k - 1].path.as_str(), e.path.as_str()) == Rank::After
        invariant
            k <= v.len(),
            v@ == old(v)@,
            forall|j: int|
                k <= j < v.len() ==> path_rank(
                    components(entry_path()(#[trigger] entries(v@)[j])),
                    components(entry_path()(e@)),
                ) == Rank::After,
        decreases k,
    {
        k -= 1;
    }
    let ghost before = entries(v@);
    proof {
        if k > 0 {
            assert(entries(v@)[k - 1] == v@[k - 1]@);
        }
        place_is_insert(before, e@, entry_path(), k as int);
    }
    let ghost shown = e@;
    v.insert(k, e);
    assert(entries(v@) =~= before.insert(k as int, shown));
}

fn insert_path(v: &mut Vec<String>, p: String)
    ensures
        path_texts(final(v)@) == place(path_texts(old(v)@), p@, itself()),
{
    let mut k: usize = v.len();
    while k > 0 && rank_path_texts(v[k - 1].as_str(), p.as_str()) == Rank::After
        invariant
            k <= v.len(),
            v@ == old(v)@,
            forall|j: int|
                k <= j < v.len() ==> path_rank(
                    components(itself()(#[trigger] path_texts(v@)[j])),
                    components(itself()(p@)),
                ) == Rank::After,
        decreases k,
    {
        k -= 1;
    }
    let ghost before = path_texts(v@);
    proof {
        if k > 0 {
            assert(path_texts(v@)[k - 1] == v@[k - 1]@);
        }
        place_is_insert(before, p@, itself(), k as int);
    }
    let ghost shown = p@;
    v.insert(k, p);
    assert(path_texts(v@) =~= before.insert(k as int, shown));
}

fn relative_path(value: String) -> (r: Result<String, RepositoryError>)
    ensures
        match (r, a_path(value@)) {
            (Ok(path), Ok(text)) => path@ == text,
            (Err(e), Err(fault)) => fault_of(e) == Some(fault),
            _ => false,
        },
{
    let chars = chars_of(value.as_str());
    if chars.len() == 0 {
        Err(RepositoryError::InvalidStatus(value))
    } else {
        Ok(value)
    }
}

fn behind_prefix(record: &str, prefix: &str) -> (r: Option<String>)
    ensures
        match r {
            Some(rest) => has_prefix(record@, prefix@) && rest@ == behind(record@, prefix@),
            None => !has_prefix(record@, prefix@),
        },
{
    if starts_with(record, prefix) {
        let n = chars_of(prefix).len();
        let all = chars_of(record);
        let rest = part_of(record, n, all.len());
        assert(rest@ =~= behind(record@, prefix@));
        Some(rest)
    } else {
        None
    }
}

fn trim_slashes(text: &str) -> (r: String)
    ensures
        r@ == without_slashes(text@),
{
    let chars = chars_of(text);
    let mut n: usize = chars.len();
    assert(text@.take(n as int) =~= text@);
    while n > 0 && chars[n - 1] == '/'
        invariant
            n <= chars.len(),
            chars@ == text@,
            without_slashes(text@.take(n as int)) == without_slashes(text@),
        decreases n,
    {
        assert(text@.take(n as int).drop_last() =~= text@.take(n - 1));
        n -= 1;
    }
    let r = part_of(text, 0, n);
    assert(r@ =~= text@.take(n as int));
    r
}

fn letter(byte: u8) -> (r: String)
    ensures
        r@ == seq![byte as char],
{
    let mut r = String::new();
    r.push(byte as char);
    assert(r@ =~= seq![byte as char]);
    r
}

fn fields_of(record: &str, limit: usize) -> (r: Vec<Vec<char>>)
    ensures
        lists_view(r@) == pieces(record@, ' ', Some(limit as nat)),
        r.len() >= 1,
{
    let chars = chars_of(record);
    split_chars(&chars, ' ', Some(limit))
}

/// Reads an ordinary or unmerged record.
pub fn parse_ordinary_status(record: &str) -> (r: Result<GitStatusEntryV1, RepositoryError>)
    ensures
        match (r, ordinary(record@)) {
            (Ok(entry), Ok(view)) => entry@ == view,
            (Err(e), Err(fault)) => fault_of(e) == Some(fault),
            _ => false,
        },
{
    let count: usize = if starts_with(record, "1 ") {
        9
    } else {
        11
    };
    let fields = fields_of(record, count);
    let ghost all = pieces(record@, ' ', Some(count as nat));
    assert(all.len() == fields.len());
    if fields.len() != count {
        return Err(RepositoryError::InvalidStatus(record.to_owned()));
    }
    assert(lists_view(fields@)[1] == fields@[1]@);
    assert(lists_view(fields@)[count - 1] == fields@[count - 1]@);
    let xy = text_of(fields[1].as_slice());
    let bytes = xy.as_str().as_bytes();
    if bytes.len() != 2 {
        return Err(RepositoryError::InvalidStatus(record.to_owned()));
    }
    match relative_path(text_of(fields[count - 1].as_slice())) {
        Err(e) => Err(e),
        Ok(path) => Ok(
            GitStatusEntryV1 {
                path,
                index_status: letter(bytes[0]),
                worktree_status: letter(bytes[1]),
                original_path: None,
            },
        ),
    }
}

/// Reads a renamed or copied record with the path it came from.
pub fn parse_renamed_status(record: &str, original: &str) -> (r: Result<
    GitStatusEntryV1,
    RepositoryError,
>)
    ensures
        match (r, renamed(record@, original@)) {
            (Ok(entry), Ok(view)) => entry@ == view,
            (Err(e), Err(fault)) => fault_of(e) == Some(fault),
            _ => false,
        },
{
    let fields = fields_of(record, 10);
    let ghost all = pieces(record@, ' ', Some(10));
    assert(all.len() == fields.len());
    if fields.len() != 10 {
        return Err(RepositoryError::InvalidStatus(record.to_owned()));
    }
    assert(lists_view(fields@)[1] == fields@[1]@);
    assert(lists_view(fields@)[9] == fields@[9]@);
    let xy = text_of(fields[1].as_slice());
    let bytes = xy.as_str().as_bytes();
    if bytes.len() != 2 {
        return Err(RepositoryError::InvalidStatus(record.to_owned()));
    }
    let path = match relative_path(text_of(fields[9].as_slice())) {
        Err(e) => {
            return Err(e);
        },
        Ok(path) => path,
    };
    match relative_path(original.to_owned()) {
        Err(e) => Err(e),
        Ok(source) => Ok(
            GitStatusEntryV1 {
                path,
                index_status: letter(bytes[0]),
                worktree_status: letter(bytes[1]),
                original_path: Some(source),
            },
        ),
    }
}

fn take_record(seen: &mut ParsedStatus, record: &str) -> (r: Result<(), RepositoryError>)
    ensures
        match (r, read_record(old(seen)@, record@)) {
            (Ok(_), Ok(view)) => final(seen)@ == view,
            (Err(e), Err(fault)) => fault_of(e) == Some(fault),
            _ => false,
        },
{
    if let Some(value) = behind_prefix(record, "# branch.oid ") {
        seen.head = if same_text(value.as_str(), "(initial)") {
            None
        } else {
            Some(value)
        };
        return Ok(());
    }
    if let Some(value) = behind_prefix(record, "# branch.head ") {
        seen.branch = if same_text(value.as_str(), "(detached)") {
            None
        } else {
            Some(value)
        };
        return Ok(());
    }
    if let Some(value) = behind_prefix(record, "? ") {
        let path = match relative_path(value) {
            Err(e) => {
                return Err(e);
            },
            Ok(path) => path,
        };
        let ghost before = seen@;
        let copy = path.as_str().to_owned();
        seen.untracked_paths.push(copy);
        let entry = GitStatusEntryV1 {
            path,
            index_status: "?".to_owned(),
            worktree_status: "?".to_owned(),
            original_path: None,
        };
        let ghost shown = entry@;
        seen.status_entries.push(entry);
        assert(seen@.untracked =~= before.untracked.push(shown.path));
        assert(seen@.entries =~= before.entries.push(shown));
        return Ok(());
    }
    if let Some(value) = behind_prefix(record, "! ") {
        let path = match relative_path(trim_slashes(value.as_str())) {
            Err(e) => {
                return Err(e);
            },
            Ok(path) => path,
        };
        let ghost before = seen@;
        let ghost shown = path@;
        seen.ignored_paths.push(path);
        assert(seen@.ignored =~= before.ignored.push(shown));
        return Ok(());
    }
    if starts_with(record, "1 ") || starts_with(record, "u ") {
        let entry = match parse_ordinary_status(record) {
            Err(e) => {
                return Err(e);
            },
            Ok(entry) => entry,
        };
        let ghost before = seen@;
        let ghost shown = entry@;
        seen.status_entries.push(entry);
        assert(seen@.entries =~= before.entries.push(shown));
        return Ok(());
    }
    if starts_with(record, "# ") {
        Ok(())
    } else {
        Err(RepositoryError::InvalidStatus(record.to_owned()))
    }
}

fn is_pair(record: &str) -> (r: bool)
    ensures
        r == takes_two(record@),
{
    !starts_with(record, "# branch.oid ") && !starts_with(record, "# branch.head ")
        && !starts_with(record, "? ") && !starts_with(record, "! ") && !starts_with(record, "1 ")
        && !starts_with(record, "u ") && starts_with(record, "2 ")
}

/// Reads the output of `git status --porcelain=v2 -z --branch`.
pub fn parse_status(bytes: &[u8]) -> (r: Result<ParsedStatus, RepositoryError>)
    ensures
        match (r, status(bytes@)) {
            (Ok(parsed), Ok(view)) => parsed@ == view,
            (Err(e), Err(fault)) => fault_of(e) == Some(fault),
            _ => false,
        },
{
    let records = split_bytes(bytes, 0);
    let ghost all = pieces(bytes@, 0u8, None);
    let mut seen = ParsedStatus {
        head: None,
        branch: None,
        status_entries: Vec::new(),
        untracked_paths: Vec::new(),
        ignored_paths: Vec::new(),
    };
    assert(seen@.entries =~= no_status().entries);
    assert(seen@.untracked =~= no_status().untracked);
    assert(seen@.ignored =~= no_status().ignored);
    let mut i: usize = 0;
    while i < records.len()
        invariant
            i <= records.len(),
            lists_view(records@) == all,
            all == pieces(bytes@, 0u8, None),
            read_records(all, i as int, seen@) == read_records(all, 0, no_status()),
        decreases records.len() - i,
    {
        let record = &records[i];
        assert(lists_view(records@)[i as int] == record@);
        if record.len() == 0 {
            i += 1;
            continue ;
        }
        let text = match utf8_text(record.as_slice()) {
            None => {
                return Err(RepositoryError::NonUtf8Path);
            },
            Some(text) => text,
        };
        if is_pair(text.as_str()) {
            if i + 1 >= records.len() {
                return Err(RepositoryError::InvalidStatus(text));
            }
            let next = &records[i + 1];
            assert(lists_view(records@)[i + 1] == next@);
            let original = match utf8_text(next.as_slice()) {
                None => {
                    return Err(RepositoryError::NonUtf8Path);
                },
                Some(original) => original,
            };
            let entry = match parse_renamed_status(text.as_str(), original.as_str()) {
                Err(e) => {
                    return Err(e);
                },
                Ok(entry) => entry,
            };
            let ghost before = seen@;
            let ghost shown = entry@;
            seen.status_entries.push(entry);
            assert(seen@.entries =~= before.entries.push(shown));
            i += 2;
        } else {
            match take_record(&mut seen, text.as_str()) {
                Err(e) => {
                    return Err(e);
                },
                Ok(_) => {},
            }
            i += 1;
        }
    }
    let ghost read = seen@;
    let ParsedStatus { head, branch, status_entries, untracked_paths, ignored_paths } = seen;
    let status_entries = order_entries(status_entries);
    let untracked_paths = order_paths(untracked_paths);
    let ignored_paths = order_paths(ignored_paths);
    Ok(ParsedStatus { head, branch, status_entries, untracked_paths, ignored_paths })
}

fn order_entries(list: Vec<GitStatusEntryV1>) -> (r: Vec<GitStatusEntryV1>)
    ensures
        entries(r@) == in_order(entries(list@), entry_path()),
{
    let ghost all = entries(list@);
    let mut rest = list;
    let mut r: Vec<GitStatusEntryV1> = Vec::new();
    let mut backwards: Vec<GitStatusEntryV1> = Vec::new();
    while rest.len() > 0
        invariant
            all.len() == rest.len() + backwards.len(),
            forall|j: int| 0 <= j < rest.len() ==> #[trigger] rest@[j]@ == all[j],
            forall|j: int|
                0 <= j < backwards.len() ==> #[trigger] backwards@[j]@ == all[all.len() - 1 - j],
        decreases rest.len(),
    {
        if let Some(e) = rest.pop() {
            backwards.push(e);
        }
    }
    let ghost n = backwards.len();
    assert(entries(r@) =~= in_order(all.take(0), entry_path()));
    while backwards.len() > 0
        invariant
            all.len() == n,
            backwards.len() <= n,
            forall|j: int|
                0 <= j < backwards.len() ==> #[trigger] backwards@[j]@ == all[all.len() - 1 - j],
            entries(r@) == in_order(all.take(n - backwards.len()), entry_path()),
        decreases backwards.len(),
    {
        let ghost done = n - backwards.len();
        if let Some(e) = backwards.pop() {
            assert(e@ == all[done]);
            assert(all.take(done + 1).drop_last() =~= all.take(done));
            assert(all.take(done + 1).last() == e@);
            insert_entry(&mut r, e);
        }
    }
    assert(all.take(n as int) =~= all);
    r
}

fn order_paths(list: Vec<String>) -> (r: Vec<String>)
    ensures
        path_texts(r@) == in_order(path_texts(list@), itself()),
{
    let ghost all = path_texts(list@);
    let mut r: Vec<String> = Vec::new();
    let mut i: usize = 0;
    assert(path_texts(r@) =~= in_order(all.take(0), itself()));
    while i < list.len()
        invariant
            i <= list.len(),
            all == path_texts(list@),
            path_texts(r@) == in_order(all.take(i as int), itself()),
        decreases list.len() - i,
    {
        assert(all.take(i + 1).drop_last() =~= all.take(i as int));
        assert(all.take(i + 1).last() == list@[i as int]@);
        insert_path(&mut r, list[i].as_str().to_owned());
        i += 1;
    }
    assert(all.take(i as int) =~= all);
    r
}

// ---------------------------------------------------------------------------------------------
// Fingerprints
// ---------------------------------------------------------------------------------------------

/// Git-visible state of one path.
#[derive(Debug)]
pub struct Fingerprint {
    pub path: String,
    pub evidence: String,
}

pub open spec fn fingerprint_key(f: Fingerprint) -> Seq<Seq<char>> {
    components(f.path@)
}

pub open spec fn has_key(key: Seq<Seq<char>>) -> spec_fn(Fingerprint) -> bool {
    |f: Fingerprint| fingerprint_key(f) == key
}

/// The evidence that a table has for a path.
pub open spec fn lookup(table: Seq<Fingerprint>, key: Seq<Seq<char>>) -> Option<Seq<char>> {
    match first_where(table, has_key(key)) {
        Some(i) => Some(table[i].evidence@),
        None => None,
    }
}

/// A table in the order of its paths, each of which stands there once.
pub open spec fn sorted(table: Seq<Fingerprint>) -> bool {
    forall|i: int, j: int|
        0 <= i < j < table.len() ==> path_rank(
            fingerprint_key(#[trigger] table[i]),
            fingerprint_key(#[trigger] table[j]),
        ) == Rank::Before
}

/// Whether a table is in order, as a table that was stored has to be.
pub fn is_sorted(table: &Vec<Fingerprint>) -> (r: bool)
    ensures
        r == sorted(table@),
{
    let mut i: usize = 1;
    while i < table.len()
        invariant
            1 <= i,
            i <= table.len() || table.len() == 0,
            sorted(table@.take(if i <= table.len() {
                i as int
            } else {
                0
            })),
        decreases table.len() - i,
    {
        let ghost before = table@.take(i as int);
        if rank_path_texts(table[i - 1].path.as_str(), table[i].path.as_str()) != Rank::Before {
            proof {
                assert(path_rank(fingerprint_key(table@[i - 1]), fingerprint_key(table@[i as int]))
                    != Rank::Before);
            }
            return false;
        }
        proof {
            let after = table@.take(i + 1);
            assert forall|x: int, y: int| 0 <= x < y < after.len() implies path_rank(
                fingerprint_key(#[trigger] after[x]),
                fingerprint_key(#[trigger] after[y]),
            ) == Rank::Before by {
                if y < i {
                    assert(after[x] == before[x] && after[y] == before[y]);
                } else if x < i - 1 {
                    assert(after[x] == before[x] && after[i - 1] == before[i - 1]);
                    assert(path_rank(fingerprint_key(before[x]), fingerprint_key(before[i - 1]))
                        == Rank::Before);
                    path_rank_passes_on(
                        fingerprint_key(after[x]),
                        fingerprint_key(after[i - 1]),
                        fingerprint_key(after[y]),
                    );
                }
            }
        }
        i += 1;
    }
    proof {
        if table.len() > 0 {
            assert(table@.take(i as int) =~= table@);
        }
    }
    true
}

proof fn lookup_at(table: Seq<Fingerprint>, i: int)
    requires
        sorted(table),
        0 <= i < table.len(),
    ensures
        lookup(table, fingerprint_key(table[i])) == Some(table[i].evidence@),
{
    let key = fingerprint_key(table[i]);
    assert forall|j: int| 0 <= j < i implies !has_key(key)(#[trigger] table[j]) by {
        path_rank_says(fingerprint_key(table[j]), key);
    }
    first_found(table, has_key(key), i);
}

proof fn lookup_missing(table: Seq<Fingerprint>, key: Seq<Seq<char>>)
    requires
        forall|j: int| 0 <= j < table.len() ==> fingerprint_key(#[trigger] table[j]) != key,
    ensures
        lookup(table, key) is None,
{
    assert forall|j: int| 0 <= j < table.len() implies !has_key(key)(#[trigger] table[j]) by {}
    first_missing(table, has_key(key));
}

/// What a table says after a path was given new evidence.
pub open spec fn records(
    before: Seq<Fingerprint>,
    after: Seq<Fingerprint>,
    path: Seq<char>,
    evidence: Seq<char>,
) -> bool {
    forall|key: Seq<Seq<char>>| #[trigger]
        lookup(after, key) == (if key == components(path) {
            Some(evidence)
        } else {
            lookup(before, key)
        })
}

/// Gives a path new evidence.
pub fn record_fingerprint(table: &mut Vec<Fingerprint>, path: &str, evidence: String)
    requires
        sorted(old(table)@),
    ensures
        sorted(final(table)@),
        records(old(table)@, final(table)@, path@, evidence@),
{
    let ghost key = components(path@);
    let ghost before = table@;
    let ghost shown = evidence@;
    let mut k: usize = 0;
    while k < table.len() && rank_path_texts(table[k].path.as_str(), path) == Rank::Before
        invariant
            k <= table.len(),
            table@ == before,
            key == components(path@),
            forall|j: int|
                0 <= j < k ==> path_rank(fingerprint_key(#[trigger] before[j]), key)
                    == Rank::Before,
        decreases table.len() - k,
    {
        k += 1;
    }
    if k < table.len() && rank_path_texts(table[k].path.as_str(), path) == Rank::Same {
        let kept = table[k].path.as_str().to_owned();
        table.set(k, Fingerprint { path: kept, evidence });
        proof {
            path_rank_says(fingerprint_key(before[k as int]), key);
            assert(fingerprint_key(before[k as int]) == key);
            assert forall|i: int, j: int| 0 <= i < j < table@.len() implies path_rank(
                fingerprint_key(#[trigger] table@[i]),
                fingerprint_key(#[trigger] table@[j]),
            ) == Rank::Before by {
                assert(fingerprint_key(table@[i]) == fingerprint_key(before[i]));
                assert(fingerprint_key(table@[j]) == fingerprint_key(before[j]));
            }
            assert forall|other: Seq<Seq<char>>| #[trigger]
                lookup(table@, other) == (if other == key {
                    Some(shown)
                } else {
                    lookup(before, other)
                }) by {
                updated_lookup(before, table@, k as int, other);
            }
        }
        return ;
    }
    table.insert(k, Fingerprint { path: path.to_owned(), evidence });
    proof {
        let after = table@;
        if k < before.len() {
            path_rank_says(fingerprint_key(before[k as int]), key);
        }
        assert forall|i: int, j: int| 0 <= i < j < after.len() implies path_rank(
            fingerprint_key(#[trigger] after[i]),
            fingerprint_key(#[trigger] after[j]),
        ) == Rank::Before by {
            if i == k {
                assert(after[j] == before[j - 1]);
                if j > k + 1 {
                    path_rank_passes_on(
                        key,
                        fingerprint_key(before[k as int]),
                        fingerprint_key(before[j - 1]),
                    );
                }
            } else if i > k {
                assert(after[i] == before[i - 1] && after[j] == before[j - 1]);
            } else if j > k {
                assert(after[i] == before[i] && after[j] == before[j - 1]);
            } else if j < k {
                assert(after[i] == before[i] && after[j] == before[j]);
            }
        }
        assert forall|other: Seq<Seq<char>>| #[trigger]
            lookup(after, other) == (if other == key {
                Some(shown)
            } else {
                lookup(before, other)
            }) by {
            inserted_lookup(before, after, k as int, other);
            lookup_at(after, k as int);
        }
    }
}

proof fn updated_lookup(
    before: Seq<Fingerprint>,
    after: Seq<Fingerprint>,
    k: int,
    other: Seq<Seq<char>>,
)
    requires
        sorted(before),
        0 <= k < before.len(),
        after.len() == before.len(),
        forall|j: int| 0 <= j < before.len() && j != k ==> #[trigger] after[j] == before[j],
        fingerprint_key(after[k]) == fingerprint_key(before[k]),
    ensures
        other != fingerprint_key(before[k]) ==> lookup(after, other) == lookup(before, other),
        lookup(after, fingerprint_key(before[k])) == Some(after[k].evidence@),
{
    assert forall|i: int, j: int| 0 <= i < j < after.len() implies path_rank(
        fingerprint_key(#[trigger] after[i]),
        fingerprint_key(#[trigger] after[j]),
    ) == Rank::Before by {
        assert(fingerprint_key(after[i]) == fingerprint_key(before[i]));
        assert(fingerprint_key(after[j]) == fingerprint_key(before[j]));
    }
    lookup_at(after, k);
    if other != fingerprint_key(before[k]) {
        first_says(before, has_key(other));
        match first_where(before, has_key(other)) {
            Some(i) => {
                assert(fingerprint_key(before[i]) == other);
                lookup_at(after, i);
            },
            None => {
                assert forall|j: int| 0 <= j < after.len() implies fingerprint_key(
                    #[trigger] after[j],
                ) != other by {
                    assert(!has_key(other)(before[j]));
                }
                lookup_missing(after, other);
            },
        }
    }
}

proof fn inserted_lookup(
    before: Seq<Fingerprint>,
    after: Seq<Fingerprint>,
    k: int,
    other: Seq<Seq<char>>,
)
    requires
        sorted(before),
        sorted(after),
        0 <= k <= before.len(),
        after.len() == before.len() + 1,
        forall|j: int| 0 <= j < k ==> #[trigger] after[j] == before[j],
        forall|j: int| k <= j < before.len() ==> after[j + 1] == #[trigger] before[j],
    ensures
        other != fingerprint_key(after[k]) ==> lookup(after, other) == lookup(before, other),
{
    if other != fingerprint_key(after[k]) {
        first_says(before, has_key(other));
        match first_where(before, has_key(other)) {
            Some(i) => {
                assert(fingerprint_key(before[i]) == other);
                if i < k {
                    assert(after[i] == before[i]);
                    lookup_at(after, i);
                } else {
                    assert(after[i + 1] == before[i]);
                    lookup_at(after, i + 1);
                }
            },
            None => {
                assert forall|j: int| 0 <= j < after.len() implies fingerprint_key(
                    #[trigger] after[j],
                ) != other by {
                    if j < k {
                        assert(!has_key(other)(before[j]));
                    } else if j > k {
                        assert(after[j] == before[j - 1]);
                        assert(!has_key(other)(before[j - 1]));
                    }
                }
                lookup_missing(after, other);
            },
        }
    }
}

// ---------------------------------------------------------------------------------------------
// Write scopes
// ---------------------------------------------------------------------------------------------

/// Where a Task may write.
#[derive(Debug)]
#[allow(inconsistent_fields)]
pub enum WriteScopeV1 {
    /// Exactly one file.
    ExactFile { path: String },
    /// A directory and everything below it.
    Subtree { path: String },
}

/// Whether a change stands within a write scope.
#[derive(Debug, Clone, Copy, PartialEq, Eq, Structural)]
pub enum ScopeClassification {
    InScope,
    OutOfScope,
}

/// A changed path with its classification; `matched_scope` is the scope it is in.
#[derive(Debug)]
pub struct ScopeClassificationV1 {
    pub path: String,
    pub classification: ScopeClassification,
    pub matched_scope: Option<WriteScopeV1>,
}

/// A scope that covers a path.
pub open spec fn covers(path: Seq<char>) -> spec_fn(WriteScopeV1) -> bool {
    |scope: WriteScopeV1|
        match scope {
            WriteScopeV1::ExactFile { path: exact } => components(path) == components(exact@),
            WriteScopeV1::Subtree { path: subtree } => is_below(
                components(path),
                components(subtree@),
            ),
        }
}

/// Two scopes of the same kind and path.
pub open spec fn same_scope(a: WriteScopeV1, b: WriteScopeV1) -> bool {
    match (a, b) {
        (WriteScopeV1::ExactFile { path: x }, WriteScopeV1::ExactFile { path: y }) => x@ == y@,
        (WriteScopeV1::Subtree { path: x }, WriteScopeV1::Subtree { path: y }) => x@ == y@,
        _ => false,
    }
}

fn copy_scope(scope: &WriteScopeV1) -> (r: WriteScopeV1)
    ensures
        same_scope(r, *scope),
{
    match scope {
        WriteScopeV1::ExactFile { path } => WriteScopeV1::ExactFile {
            path: path.as_str().to_owned(),
        },
        WriteScopeV1::Subtree { path } => WriteScopeV1::Subtree { path: path.as_str().to_owned() },
    }
}

/// The classification of a path: the first scope that covers it counts.
pub open spec fn classifies(
    r: ScopeClassificationV1,
    path: Seq<char>,
    scopes: Seq<WriteScopeV1>,
) -> bool {
    &&& r.path@ == path
    &&& match first_where(scopes, covers(path)) {
        Some(i) => r.classification == ScopeClassification::InScope && r.matched_scope is Some
            && same_scope(r.matched_scope->0, scopes[i]),
        None => r.classification == ScopeClassification::OutOfScope && r.matched_scope is None,
    }
}

/// Classifies a path.
pub fn classify_path(path: &str, scopes: &Vec<WriteScopeV1>) -> (r: ScopeClassificationV1)
    ensures
        classifies(r, path@, scopes@),
{
    let mut i: usize = 0;
    while i < scopes.len()
        invariant
            i <= scopes.len(),
            forall|j: int| 0 <= j < i ==> !covers(path@)(#[trigger] scopes@[j]),
        decreases scopes.len() - i,
    {
        let inside = match &scopes[i] {
            WriteScopeV1::ExactFile { path: exact } => {
                proof {
                    path_rank_says(components(path@), components(exact@));
                }
                rank_path_texts(path, exact.as_str()) == Rank::Same
            },
            WriteScopeV1::Subtree { path: subtree } => path_is_below(path, subtree.as_str()),
        };
        if inside {
            proof {
                first_found(scopes@, covers(path@), i as int);
            }
            return ScopeClassificationV1 {
                path: path.to_owned(),
                classification: ScopeClassification::InScope,
                matched_scope: Some(copy_scope(&scopes[i])),
            };
        }
        i += 1;
    }
    proof {
        first_missing(scopes@, covers(path@));
    }
    ScopeClassificationV1 {
        path: path.to_owned(),
        classification: ScopeClassification::OutOfScope,
        matched_scope: None,
    }
}

/// A subtree scope covers everything below a path that it covers; an exact scope covers nothing
/// below its file.
pub proof fn scopes_follow_component_boundaries(
    scope: WriteScopeV1,
    path: Seq<char>,
    below: Seq<char>,
)
    requires
        covers(path)(scope),
        is_below(components(below), components(path)),
        components(below) != components(path),
    ensures
        covers(below)(scope) == (scope is Subtree),
{
    let p = components(path);
    let b = components(below);
    match scope {
        WriteScopeV1::ExactFile { path: exact } => {},
        WriteScopeV1::Subtree { path: subtree } => {
            let s = components(subtree@);
            assert(b.take(s.len() as int) =~= p.take(s.len() as int)) by {
                assert forall|i: int| 0 <= i < s.len() implies b[i] == p[i] by {
                    assert(b.take(p.len() as int)[i] == p[i]);
                }
            }
        },
    }
}

// ---------------------------------------------------------------------------------------------
// Comparison
// ---------------------------------------------------------------------------------------------

/// Paths that changed after a baseline and their advisory scope classifications.
#[derive(Debug)]
pub struct BaselineComparison {
    /// Sorted repository-relative paths whose Git-visible state differs.
    pub changed_paths: Vec<String>,
    /// One classification for every changed path.
    pub scope_classifications: Vec<ScopeClassificationV1>,
}

/// A list of paths names one with these components.
pub open spec fn names(list: Seq<String>, key: Seq<Seq<char>>) -> bool {
    exists|i: int| 0 <= i < list.len() && components((#[trigger] list[i])@) == key
}

/// Paths in order, each of them once.
pub open spec fn rising(list: Seq<String>) -> bool {
    forall|i: int, j: int|
        0 <= i < j < list.len() ==> path_rank(
            components((#[trigger] list[i])@),
            components((#[trigger] list[j])@),
        ) == Rank::Before
}

/// A list names exactly the paths on which two tables differ, in order.
pub open spec fn differences(list: Seq<String>, a: Seq<Fingerprint>, b: Seq<Fingerprint>) -> bool {
    &&& rising(list)
    &&& forall|key: Seq<Seq<char>>| #[trigger]
        names(list, key) <==> lookup(a, key) != lookup(b, key)
}

/// The first `i` entries of one table and the first `j` of another merged into a list of the paths
/// on which the tables differ; everything merged stands before everything left.
#[verifier::opaque]
spec fn merged(a: Seq<Fingerprint>, b: Seq<Fingerprint>, i: int, j: int, r: Seq<String>) -> bool {
    &&& rising(r)
    &&& forall|x: int, y: int|
        0 <= x < i && j <= y < b.len() ==> path_rank(
            fingerprint_key(#[trigger] a[x]),
            fingerprint_key(#[trigger] b[y]),
        ) == Rank::Before
    &&& forall|x: int, y: int|
        i <= x < a.len() && 0 <= y < j ==> path_rank(
            fingerprint_key(#[trigger] b[y]),
            fingerprint_key(#[trigger] a[x]),
        ) == Rank::Before
    &&& forall|k: int, x: int|
        0 <= k < r.len() && i <= x < a.len() ==> path_rank(
            components((#[trigger] r[k])@),
            fingerprint_key(#[trigger] a[x]),
        ) == Rank::Before
    &&& forall|k: int, y: int|
        0 <= k < r.len() && j <= y < b.len() ==> path_rank(
            components((#[trigger] r[k])@),
            fingerprint_key(#[trigger] b[y]),
        ) == Rank::Before
    &&& forall|k: int|
        0 <= k < r.len() ==> lookup(a, components((#[trigger] r[k])@)) != lookup(
            b,
            components(r[k]@),
        )
    &&& forall|x: int|
        0 <= x < i ==> names(r, fingerprint_key(#[trigger] a[x])) || lookup(
            a,
            fingerprint_key(a[x]),
        ) == lookup(b, fingerprint_key(a[x]))
    &&& forall|y: int|
        0 <= y < j ==> names(r, fingerprint_key(#[trigger] b[y])) || lookup(
            a,
            fingerprint_key(b[y]),
        ) == lookup(b, fingerprint_key(b[y]))
}

proof fn merge_left(
    a: Seq<Fingerprint>,
    b: Seq<Fingerprint>,
    i: int,
    j: int,
    r: Seq<String>,
    path: String,
)
    requires
        sorted(a),
        sorted(b),
        0 <= i < a.len(),
        0 <= j <= b.len(),
        merged(a, b, i, j, r),
        j < b.len() ==> path_rank(fingerprint_key(a[i]), fingerprint_key(b[j])) == Rank::Before,
        path@ == a[i].path@,
    ensures
        merged(a, b, i + 1, j, r.push(path)),
{
    reveal(merged);
    let key = fingerprint_key(a[i]);
    let after = r.push(path);
    assert forall|y: int| j <= y < b.len() implies path_rank(key, fingerprint_key(#[trigger] b[y]))
        == Rank::Before by {
        if y > j {
            path_rank_passes_on(key, fingerprint_key(b[j]), fingerprint_key(b[y]));
        }
    }
    lookup_at(a, i);
    assert forall|y: int| 0 <= y < b.len() implies fingerprint_key(#[trigger] b[y]) != key by {
        path_rank_says(fingerprint_key(b[y]), key);
        path_rank_says(key, fingerprint_key(b[y]));
    }
    lookup_missing(b, key);
    names_grow(r, after);
    assert forall|x: int, y: int| 0 <= x < i + 1 && j <= y < b.len() implies path_rank(
        fingerprint_key(#[trigger] a[x]),
        fingerprint_key(#[trigger] b[y]),
    ) == Rank::Before by {}
    assert forall|k: int, x: int| 0 <= k < after.len() && i + 1 <= x < a.len() implies path_rank(
        components((#[trigger] after[k])@),
        fingerprint_key(#[trigger] a[x]),
    ) == Rank::Before by {
        if k < r.len() {
            assert(after[k] == r[k]);
        }
    }
    assert forall|k: int, y: int| 0 <= k < after.len() && j <= y < b.len() implies path_rank(
        components((#[trigger] after[k])@),
        fingerprint_key(#[trigger] b[y]),
    ) == Rank::Before by {
        if k < r.len() {
            assert(after[k] == r[k]);
        }
    }
    assert forall|x: int, y: int| 0 <= x < y < after.len() implies path_rank(
        components((#[trigger] after[x])@),
        components((#[trigger] after[y])@),
    ) == Rank::Before by {
        assert(after[x] == r[x]);
        if y < r.len() {
            assert(after[y] == r[y]);
        }
    }
    assert forall|k: int| 0 <= k < after.len() implies lookup(a, components((#[trigger] after[k])@))
        != lookup(b, components(after[k]@)) by {
        if k < r.len() {
            assert(after[k] == r[k]);
        }
    }
}

proof fn merge_right(
    a: Seq<Fingerprint>,
    b: Seq<Fingerprint>,
    i: int,
    j: int,
    r: Seq<String>,
    path: String,
)
    requires
        sorted(a),
        sorted(b),
        0 <= i <= a.len(),
        0 <= j < b.len(),
        merged(a, b, i, j, r),
        i < a.len() ==> path_rank(fingerprint_key(b[j]), fingerprint_key(a[i])) == Rank::Before,
        path@ == b[j].path@,
    ensures
        merged(a, b, i, j + 1, r.push(path)),
{
    assert(merged(b, a, j, i, r)) by {
        reveal(merged);
    }
    merge_left(b, a, j, i, r, path);
    reveal(merged);
}

proof fn merge_both(a: Seq<Fingerprint>, b: Seq<Fingerprint>, i: int, j: int, r: Seq<String>, path: String)
    requires
        sorted(a),
        sorted(b),
        0 <= i < a.len(),
        0 <= j < b.len(),
        merged(a, b, i, j, r),
        fingerprint_key(a[i]) == fingerprint_key(b[j]),
        path@ == a[i].path@,
    ensures
        a[i].evidence@ == b[j].evidence@ ==> merged(a, b, i + 1, j + 1, r),
        a[i].evidence@ != b[j].evidence@ ==> merged(a, b, i + 1, j + 1, r.push(path)),
{
    reveal(merged);
    let key = fingerprint_key(a[i]);
    lookup_at(a, i);
    lookup_at(b, j);
    let after = if a[i].evidence@ == b[j].evidence@ {
        r
    } else {
        r.push(path)
    };
    if a[i].evidence@ != b[j].evidence@ {
        names_grow(r, after);
    }
    assert forall|x: int, y: int| 0 <= x < i + 1 && j + 1 <= y < b.len() implies path_rank(
        fingerprint_key(#[trigger] a[x]),
        fingerprint_key(#[trigger] b[y]),
    ) == Rank::Before by {
        if x == i {
            assert(path_rank(fingerprint_key(b[j]), fingerprint_key(b[y])) == Rank::Before);
        }
    }
    assert forall|x: int, y: int| i + 1 <= x < a.len() && 0 <= y < j + 1 implies path_rank(
        fingerprint_key(#[trigger] b[y]),
        fingerprint_key(#[trigger] a[x]),
    ) == Rank::Before by {
        if y == j {
            assert(path_rank(fingerprint_key(a[i]), fingerprint_key(a[x])) == Rank::Before);
        }
    }
    assert forall|k: int, x: int| 0 <= k < after.len() && i + 1 <= x < a.len() implies path_rank(
        components((#[trigger] after[k])@),
        fingerprint_key(#[trigger] a[x]),
    ) == Rank::Before by {
        if k < r.len() {
            assert(after[k] == r[k]);
        } else {
            assert(path_rank(fingerprint_key(a[i]), fingerprint_key(a[x])) == Rank::Before);
        }
    }
    assert forall|k: int, y: int| 0 <= k < after.len() && j + 1 <= y < b.len() implies path_rank(
        components((#[trigger] after[k])@),
        fingerprint_key(#[trigger] b[y]),
    ) == Rank::Before by {
        if k < r.len() {
            assert(after[k] == r[k]);
        } else {
            assert(path_rank(fingerprint_key(b[j]), fingerprint_key(b[y])) == Rank::Before);
        }
    }
    assert forall|x: int, y: int| 0 <= x < y < after.len() implies path_rank(
        components((#[trigger] after[x])@),
        components((#[trigger] after[y])@),
    ) == Rank::Before by {
        assert(after[x] == r[x]);
        if y < r.len() {
            assert(after[y] == r[y]);
        }
    }
    assert forall|k: int| 0 <= k < after.len() implies lookup(a, components((#[trigger] after[k])@))
        != lookup(b, components(after[k]@)) by {
        if k < r.len() {
            assert(after[k] == r[k]);
        }
    }
}

proof fn merge_ends(a: Seq<Fingerprint>, b: Seq<Fingerprint>, r: Seq<String>)
    requires
        merged(a, b, a.len() as int, b.len() as int, r),
    ensures
        differences(r, a, b),
{
    reveal(merged);
    assert forall|key: Seq<Seq<char>>| #[trigger]
        names(r, key) <==> lookup(a, key) != lookup(b, key) by {
        if lookup(a, key) != lookup(b, key) {
            first_says(a, has_key(key));
            first_says(b, has_key(key));
            match first_where(a, has_key(key)) {
                Some(x) => {
                    assert(fingerprint_key(a[x]) == key);
                },
                None => {
                    let y = first_where(b, has_key(key))->0;
                    assert(fingerprint_key(b[y]) == key);
                },
            }
        }
    }
}

/// The paths on which two tables differ.
fn changed_paths(a: &Vec<Fingerprint>, b: &Vec<Fingerprint>) -> (r: Vec<String>)
    requires
        sorted(a@),
        sorted(b@),
    ensures
        differences(r@, a@, b@),
{
    let mut r: Vec<String> = Vec::new();
    let mut i: usize = 0;
    let mut j: usize = 0;
    assert(merged(a@, b@, 0, 0, r@)) by {
        reveal(merged);
    }
    while i < a.len() || j < b.len()
        invariant
            i <= a.len(),
            j <= b.len(),
            sorted(a@),
            sorted(b@),
            merged(a@, b@, i as int, j as int, r@),
        decreases a.len() - i + b.len() - j,
    {
        let rank = if i == a.len() {
            Rank::After
        } else if j == b.len() {
            Rank::Before
        } else {
            rank_path_texts(a[i].path.as_str(), b[j].path.as_str())
        };
        if rank == Rank::Before {
            let path = a[i].path.as_str().to_owned();
            proof {
                merge_left(a@, b@, i as int, j as int, r@, path);
            }
            r.push(path);
            i += 1;
        } else if rank == Rank::After {
            let path = b[j].path.as_str().to_owned();
            proof {
                if i < a.len() {
                    path_rank_says(fingerprint_key(a@[i as int]), fingerprint_key(b@[j as int]));
                }
                merge_right(a@, b@, i as int, j as int, r@, path);
            }
            r.push(path);
            j += 1;
        } else {
            let path = a[i].path.as_str().to_owned();
            proof {
                path_rank_says(fingerprint_key(a@[i as int]), fingerprint_key(b@[j as int]));
                merge_both(a@, b@, i as int, j as int, r@, path);
            }
            if !same_text(a[i].evidence.as_str(), b[j].evidence.as_str()) {
                r.push(path);
            }
            i += 1;
            j += 1;
        }
    }
    proof {
        merge_ends(a@, b@, r@);
    }
    r
}

proof fn names_grow(before: Seq<String>, after: Seq<String>)
    requires
        after.len() == before.len() + 1,
        after.drop_last() =~= before,
    ensures
        forall|key: Seq<Seq<char>>| names(before, key) ==> #[trigger] names(after, key),
        names(after, components(after.last()@)),
{
    assert forall|key: Seq<Seq<char>>| names(before, key) implies #[trigger] names(after, key) by {
        let i = choose|i: int| 0 <= i < before.len() && components((#[trigger] before[i])@) == key;
        assert(after.drop_last()[i] == before[i]);
        assert(components(after[i]@) == key);
    }
    assert(components(after[after.len() - 1]@) == components(after.last()@));
}

// ---------------------------------------------------------------------------------------------
// Snapshots
// ---------------------------------------------------------------------------------------------

/// What kind of file an untracked path is.
#[derive(Debug, Clone, Copy, PartialEq, Eq, Structural)]
pub enum ObservedFileType {
    Regular,
    Symlink,
    Other,
}

/// Metadata of a visible untracked path.
#[derive(Debug)]
pub struct UntrackedPathV1 {
    pub path: String,
    pub file_type: ObservedFileType,
    pub size: Option<u64>,
    pub digest: Option<String>,
}

/// What the index and the worktree hold of an indexed path.
#[derive(Debug)]
pub struct TrackedEvidence {
    /// Output of `git ls-files --stage` for the path.
    pub index: Vec<u8>,
    /// What [`content_evidence`] says of the worktree.
    pub content: String,
}

/// What stands at a path of the worktree.
#[derive(Debug)]
pub enum WorktreeContent {
    Missing,
    Symlink(String),
    File(Vec<u8>),
    Other,
}

/// Evidence of what stands at a path of the worktree.
pub open spec fn content_form(found: WorktreeContent) -> Seq<char> {
    match found {
        WorktreeContent::Missing => "missing"@,
        WorktreeContent::Symlink(target) => "symlink:"@ + digest_form(encode_utf8(target@)),
        WorktreeContent::File(bytes) => "file:"@ + digest_form(bytes@),
        WorktreeContent::Other => "other"@,
    }
}

/// Writes evidence of what stands at a path of the worktree.
pub fn content_evidence(found: &WorktreeContent) -> (r: String)
    ensures
        r@ == content_form(*found),
{
    match found {
        WorktreeContent::Missing => "missing".to_owned(),
        WorktreeContent::Symlink(target) => {
            let digest = digest_text(target.as_str());
            join("symlink:", digest.as_str())
        },
        WorktreeContent::File(bytes) => {
            let digest = digest_bytes(bytes.as_slice());
            join("file:", digest.as_str())
        },
        WorktreeContent::Other => "other".to_owned(),
    }
}

pub open spec fn file_type_name(file_type: ObservedFileType) -> Seq<char> {
    match file_type {
        ObservedFileType::Regular => "Regular"@,
        ObservedFileType::Symlink => "Symlink"@,
        ObservedFileType::Other => "Other"@,
    }
}

pub open spec fn size_of_untracked(item: UntrackedPathV1) -> nat {
    match item.size {
        Some(n) => n as nat,
        None => 0,
    }
}

pub open spec fn digest_of_untracked(item: UntrackedPathV1) -> Seq<char> {
    match item.digest {
        Some(d) => d@,
        None => Seq::empty(),
    }
}

pub open spec fn untracked_form(item: UntrackedPathV1) -> Seq<char> {
    "untracked:"@ + file_type_name(item.file_type) + ":"@ + decimal(size_of_untracked(item)) + ":"@
        + digest_of_untracked(item)
}

pub open spec fn tracked_form(entry: EntryView, evidence: TrackedEvidence) -> Seq<char> {
    entry.index_status + ":"@ + entry.worktree_status + ":"@ + hex_form(evidence.index@) + ":"@
        + evidence.content@
}

pub open spec fn is_item_at(path: Seq<char>) -> spec_fn(UntrackedPathV1) -> bool {
    |item: UntrackedPathV1| components(item.path@) == components(path)
}

/// Evidence of one status record.
pub open spec fn entry_form(
    entry: EntryView,
    untracked: Seq<UntrackedPathV1>,
    evidence: TrackedEvidence,
) -> Seq<char> {
    match last_where(untracked, is_item_at(entry.path)) {
        Some(i) => untracked_form(untracked[i]),
        None => tracked_form(entry, evidence),
    }
}

/// The fingerprints of the first `n` records: a record speaks of its path and of the path that its
/// file came from.
pub open spec fn entry_prints(
    list: Seq<EntryView>,
    untracked: Seq<UntrackedPathV1>,
    indexed: Seq<TrackedEvidence>,
    n: nat,
) -> Map<Seq<Seq<char>>, Seq<char>>
    decreases n,
{
    if n == 0 {
        Map::empty()
    } else {
        let before = entry_prints(list, untracked, indexed, (n - 1) as nat);
        let entry = list[n - 1];
        let form = entry_form(entry, untracked, indexed[n - 1]);
        let own = before.insert(components(entry.path), form);
        match entry.original_path {
            Some(original) => own.insert(components(original), "source:"@ + form),
            None => own,
        }
    }
}

/// The fingerprints of the first `n` ignored paths, on top of those of the records.
pub open spec fn ignored_prints(
    base: Map<Seq<Seq<char>>, Seq<char>>,
    ignored: Seq<Seq<char>>,
    n: nat,
) -> Map<Seq<Seq<char>>, Seq<char>>
    decreases n,
{
    if n == 0 {
        base
    } else {
        ignored_prints(base, ignored, (n - 1) as nat).insert(
            components(ignored[n - 1]),
            "ignored-visible"@,
        )
    }
}

/// A table says what a map says.
pub open spec fn tells(table: Seq<Fingerprint>, map: Map<Seq<Seq<char>>, Seq<char>>) -> bool {
    sorted(table) && forall|key: Seq<Seq<char>>| #[trigger]
        lookup(table, key) == (if map.contains_key(key) {
            Some(map[key])
        } else {
            None
        })
}

fn untracked_evidence(item: &UntrackedPathV1) -> (r: String)
    ensures
        r@ == untracked_form(*item),
{
    let kind = match item.file_type {
        ObservedFileType::Regular => "Regular",
        ObservedFileType::Symlink => "Symlink",
        ObservedFileType::Other => "Other",
    };
    let size: u64 = match item.size {
        Some(n) => n,
        None => 0,
    };
    let digits = decimal_text(size);
    let mut r = join3("untracked:", kind, ":");
    r.append(digits.as_str());
    r.append(":");
    match &item.digest {
        Some(d) => {
            r.append(d.as_str());
        },
        None => {
            assert(r@ =~= r@ + Seq::<char>::empty());
        },
    }
    r
}

fn tracked_evidence(entry: &GitStatusEntryV1, evidence: &TrackedEvidence) -> (r: String)
    ensures
        r@ == tracked_form(entry@, *evidence),
{
    let index = hex_text(evidence.index.as_slice());
    let mut r = join3(entry.index_status.as_str(), ":", entry.worktree_status.as_str());
    r.append(":");
    r.append(index.as_str());
    r.append(":");
    r.append(evidence.content.as_str());
    r
}

fn entry_evidence(
    entry: &GitStatusEntryV1,
    untracked: &Vec<UntrackedPathV1>,
    evidence: &TrackedEvidence,
) -> (r: String)
    ensures
        r@ == entry_form(entry@, untracked@, *evidence),
{
    let mut i: usize = untracked.len();
    while i > 0
        invariant
            i <= untracked.len(),
            forall|j: int|
                i <= j < untracked.len() ==> !is_item_at(entry.path@)(#[trigger] untracked@[j]),
        decreases i,
    {
        i -= 1;
        proof {
            path_rank_says(components(untracked@[i as int].path@), components(entry.path@));
        }
        if rank_path_texts(untracked[i].path.as_str(), entry.path.as_str()) == Rank::Same {
            proof {
                last_found(untracked@, is_item_at(entry.path@), i as int);
            }
            return untracked_evidence(&untracked[i]);
        }
    }
    proof {
        last_missing(untracked@, is_item_at(entry.path@));
    }
    tracked_evidence(entry, evidence)
}

/// The fingerprints of an observation, in the order of their paths.
pub fn build_fingerprints(
    list: &Vec<GitStatusEntryV1>,
    untracked: &Vec<UntrackedPathV1>,
    indexed: &Vec<TrackedEvidence>,
    ignored: &Vec<String>,
) -> (r: Vec<Fingerprint>)
    requires
        indexed@.len() == list@.len(),
    ensures
        tells(
            r@,
            ignored_prints(
                entry_prints(entries(list@), untracked@, indexed@, list@.len()),
                path_texts(ignored@),
                ignored@.len(),
            ),
        ),
{
    let mut r: Vec<Fingerprint> = Vec::new();
    let ghost all = entries(list@);
    proof {
        assert forall|key: Seq<Seq<char>>| #[trigger] lookup(r@, key) is None by {
            lookup_missing(r@, key);
        }
    }
    let mut i: usize = 0;
    while i < list.len()
        invariant
            i <= list.len(),
            indexed@.len() == list@.len(),
            all == entries(list@),
            tells(r@, entry_prints(all, untracked@, indexed@, i as nat)),
        decreases list.len() - i,
    {
        let entry = &list[i];
        assert(all[i as int] == entry@);
        let evidence = entry_evidence(entry, untracked, &indexed[i]);
        let copy = evidence.as_str().to_owned();
        record_fingerprint(&mut r, entry.path.as_str(), copy);
        if let Some(original) = &entry.original_path {
            record_fingerprint(&mut r, original.as_str(), join("source:", evidence.as_str()));
        }
        i += 1;
    }
    let ghost base = entry_prints(all, untracked@, indexed@, list@.len());
    let mut k: usize = 0;
    while k < ignored.len()
        invariant
            k <= ignored.len(),
            tells(r@, ignored_prints(base, path_texts(ignored@), k as nat)),
        decreases ignored.len() - k,
    {
        assert(path_texts(ignored@)[k as int] == ignored@[k as int]@);
        record_fingerprint(&mut r, ignored[k].as_str(), "ignored-visible".to_owned());
        k += 1;
    }
    r
}

/// Immutable Git-visible state captured at one instant.
#[derive(Debug)]
pub struct RepositorySnapshot {
    /// Canonical repository identity.
    pub identity: RepositoryIdentity,
    /// Current commit, or `None` for an unborn branch.
    pub head: Option<String>,
    /// Current branch, or `None` for detached HEAD.
    pub branch: Option<String>,
    /// SHA-256 of the current index file, or of nothing when no index exists.
    pub index_digest: String,
    /// Normalized status records.
    pub status_entries: Vec<GitStatusEntryV1>,
    /// Raw `git diff --binary --cached` output.
    pub staged_diff: Vec<u8>,
    /// Raw `git diff --binary` output.
    pub unstaged_diff: Vec<u8>,
    /// Metadata and content digests for visible untracked paths.
    pub untracked: Vec<UntrackedPathV1>,
    /// Visible ignored path names.
    pub ignored_paths: Vec<String>,
    /// Evidence for every visible path.
    pub fingerprints: Vec<Fingerprint>,
}

/// A read-only handle to one canonical non-bare Git worktree.
#[derive(Debug)]
pub struct GitRepository {
    pub identity: RepositoryIdentity,
}

/// What the file system said of an untracked path.
#[derive(Debug)]
pub enum UntrackedContent {
    /// A regular file of a size, with its content.
    File { size: u64, content: Vec<u8> },
    /// A symbolic link.
    Symlink,
    /// Something else.
    Other,
}

/// The evidence of an untracked path: a regular file has a size and the digest of its content.
pub open spec fn describes(
    item: UntrackedPathV1,
    path: Seq<char>,
    found: UntrackedContent,
) -> bool {
    &&& item.path@ == path
    &&& match found {
        UntrackedContent::File { size, content } => item.file_type == ObservedFileType::Regular
            && item.size == Some(size) && optional_text(item.digest) == Some(digest_form(content@)),
        UntrackedContent::Symlink => item.file_type == ObservedFileType::Symlink
            && item.size is None && item.digest is None,
        UntrackedContent::Other => item.file_type == ObservedFileType::Other && item.size is None
            && item.digest is None,
    }
}

/// Makes the evidence of an untracked path.
pub fn inspect_untracked(path: &str, found: &UntrackedContent) -> (r: UntrackedPathV1)
    ensures
        describes(r, path@, *found),
{
    let (file_type, size, digest) = match found {
        UntrackedContent::File { size, content } => (
            ObservedFileType::Regular,
            Some(*size),
            Some(digest_bytes(content.as_slice())),
        ),
        UntrackedContent::Symlink => (ObservedFileType::Symlink, None, None),
        UntrackedContent::Other => (ObservedFileType::Other, None, None),
    };
    UntrackedPathV1 { path: path.to_owned(), file_type, size, digest }
}

/// What Git and the file system said of a worktree.
#[derive(Debug)]
pub struct RawObservation {
    /// Output of `git status --porcelain=v2 -z --branch`.
    pub status: Vec<u8>,
    pub staged_diff: Vec<u8>,
    pub unstaged_diff: Vec<u8>,
    /// Content of the index file, if there is one.
    pub index: Option<Vec<u8>>,
    /// What stands at each untracked path of the status, in its order.
    pub untracked: Vec<UntrackedContent>,
    /// What is known of each entry of the status, in its order.
    pub indexed: Vec<TrackedEvidence>,
}

/// Every path of the status was looked at.
pub open spec fn inspected(raw: RawObservation) -> bool {
    match status(raw.status@) {
        Ok(seen) => raw.untracked@.len() == seen.untracked.len() && raw.indexed@.len()
            == seen.entries.len(),
        Err(_) => true,
    }
}

/// The snapshot of a worktree whose status says `seen`: each list in the order of its paths, and
/// one piece of evidence for each untracked path.
pub open spec fn shows(
    s: RepositorySnapshot,
    identity: RepositoryIdentity,
    raw: RawObservation,
    seen: StatusView,
) -> bool {
    &&& s.identity.worktree_root@ == identity.worktree_root@
    &&& s.identity.git_common_dir@ == identity.git_common_dir@
    &&& optional_text(s.head) == seen.head
    &&& optional_text(s.branch) == seen.branch
    &&& s.index_digest@ == index_form(raw.index)
    &&& entries(s.status_entries@) == seen.entries
    &&& s.staged_diff == raw.staged_diff
    &&& s.unstaged_diff == raw.unstaged_diff
    &&& s.untracked@.len() == seen.untracked.len()
    &&& forall|i: int|
        0 <= i < s.untracked@.len() ==> describes(
            #[trigger] s.untracked@[i],
            seen.untracked[i],
            raw.untracked@[i],
        )
    &&& path_texts(s.ignored_paths@) == seen.ignored
    &&& tells(
        s.fingerprints@,
        ignored_prints(
            entry_prints(seen.entries, s.untracked@, raw.indexed@, raw.indexed@.len()),
            seen.ignored,
            seen.ignored.len(),
        ),
    )
}

pub open spec fn index_form(index: Option<Vec<u8>>) -> Seq<char> {
    match index {
        Some(bytes) => digest_form(bytes@),
        None => digest_form(Seq::empty()),
    }
}

impl GitRepository {
    /// The worktree that Git discovered at a selected root: not a bare repository, and exactly the
    /// selected directory.
    pub fn discovered(
        bare: &str,
        selected: String,
        discovered: String,
        git_common_dir: String,
    ) -> (r: Result<GitRepository, RepositoryError>)
        ensures
            match r {
                Ok(found) => trimmed(bare@) != "true"@ && components(selected@) == components(
                    discovered@,
                ) && found.identity.worktree_root@ == discovered@
                    && found.identity.git_common_dir@ == git_common_dir@,
                Err(RepositoryError::BareRepository) => trimmed(bare@) == "true"@,
                Err(RepositoryError::RootMismatch { selected: a, discovered: b }) => trimmed(bare@)
                    != "true"@ && components(selected@) != components(discovered@) && a@
                    == selected@ && b@ == discovered@,
                Err(_) => false,
            },
    {
        let answer = trim(bare);
        if same_text(answer.as_str(), "true") {
            return Err(RepositoryError::BareRepository);
        }
        proof {
            path_rank_says(components(selected@), components(discovered@));
        }
        if rank_path_texts(selected.as_str(), discovered.as_str()) != Rank::Same {
            return Err(RepositoryError::RootMismatch { selected, discovered });
        }
        Ok(
            GitRepository {
                identity: RepositoryIdentity { worktree_root: discovered, git_common_dir },
            },
        )
    }

    /// The canonical identity used for leases and Holds.
    pub fn identity(&self) -> (r: &RepositoryIdentity)
        ensures
            *r == self.identity,
    {
        &self.identity
    }

    /// Makes a snapshot of what Git and the file system said.
    pub fn observe(&self, raw: RawObservation) -> (r: Result<RepositorySnapshot, RepositoryError>)
        requires
            inspected(raw),
        ensures
            match (r, status(raw.status@)) {
                (Ok(snapshot), Ok(seen)) => {
                    &&& shows(snapshot, self.identity, raw, seen)
                    &&& ordered(entries(snapshot.status_entries@), entry_path())
                    &&& ordered(untracked_paths(snapshot.untracked@), itself())
                    &&& ordered(path_texts(snapshot.ignored_paths@), itself())
                },
                (Err(e), Err(fault)) => fault_of(e) == Some(fault),
                _ => false,
            },
    {
        let status = match parse_status(raw.status.as_slice()) {
            Err(e) => {
                return Err(e);
            },
            Ok(status) => status,
        };
        let ghost seen = status@;
        let mut untracked: Vec<UntrackedPathV1> = Vec::new();
        let mut i: usize = 0;
        while i < status.untracked_paths.len()
            invariant
                i <= status.untracked_paths.len(),
                untracked.len() == i,
                status@ == seen,
                raw.untracked@.len() == seen.untracked.len(),
                forall|j: int|
                    0 <= j < i ==> describes(
                        #[trigger] untracked@[j],
                        seen.untracked[j],
                        raw.untracked@[j],
                    ),
            decreases status.untracked_paths.len() - i,
        {
            assert(seen.untracked[i as int] == status.untracked_paths@[i as int]@);
            untracked.push(
                inspect_untracked(status.untracked_paths[i].as_str(), &raw.untracked[i]),
            );
            i += 1;
        }
        let fingerprints = build_fingerprints(
            &status.status_entries,
            &untracked,
            &raw.indexed,
            &status.ignored_paths,
        );
        let index_digest = match &raw.index {
            Some(bytes) => digest_bytes(bytes.as_slice()),
            None => {
                let nothing: Vec<u8> = Vec::new();
                assert(nothing@ =~= Seq::<u8>::empty());
                digest_bytes(nothing.as_slice())
            },
        };
        proof {
            status_is_ordered(raw.status@);
            assert(untracked_paths(untracked@) =~= seen.untracked);
        }
        Ok(
            RepositorySnapshot {
                identity: RepositoryIdentity {
                    worktree_root: self.identity.worktree_root.as_str().to_owned(),
                    git_common_dir: self.identity.git_common_dir.as_str().to_owned(),
                },
                head: status.head,
                branch: status.branch,
                index_digest,
                status_entries: status.status_entries,
                staged_diff: raw.staged_diff,
                unstaged_diff: raw.unstaged_diff,
                untracked,
                ignored_paths: status.ignored_paths,
                fingerprints,
            },
        )
    }
}

/// The paths of evidence.
pub open spec fn untracked_paths(list: Seq<UntrackedPathV1>) -> Seq<Seq<char>> {
    Seq::new(list.len(), |i: int| list[i].path@)
}

/// What status output says stands in the order of its paths.
pub proof fn status_is_ordered(bytes: Seq<u8>)
    ensures
        match status(bytes) {
            Ok(seen) => ordered(seen.entries, entry_path()) && ordered(seen.untracked, itself())
                && ordered(seen.ignored, itself()),
            Err(_) => true,
        },
{
    if let Ok(seen) = read_records(pieces(bytes, 0u8, None), 0, no_status()) {
        order_is_kept(seen.entries, entry_path());
        order_is_kept(seen.untracked, itself());
        order_is_kept(seen.ignored, itself());
    }
}

/// The entry of an untracked path.
pub open spec fn untracked_entry(path: Seq<char>) -> EntryView {
    EntryView { path, index_status: "?"@, worktree_status: "?"@, original_path: None }
}

/// Untracked paths with their entries among what was read.
spec fn entered(seen: StatusView) -> bool {
    forall|i: int|
        0 <= i < seen.untracked.len() ==> seen.entries.contains(
            untracked_entry(#[trigger] seen.untracked[i]),
        )
}

proof fn pushing_keeps_entered(seen: StatusView, e: EntryView)
    requires
        entered(seen),
    ensures
        entered(StatusView { entries: seen.entries.push(e), ..seen }),
{
    let next = seen.entries.push(e);
    assert forall|i: int| 0 <= i < seen.untracked.len() implies next.contains(
        untracked_entry(#[trigger] seen.untracked[i]),
    ) by {
        let k = choose|k: int|
            0 <= k < seen.entries.len() && seen.entries[k] == untracked_entry(seen.untracked[i]);
        assert(next[k] == untracked_entry(seen.untracked[i]));
    }
}

proof fn reading_keeps_entered(records: Seq<Seq<u8>>, i: int, seen: StatusView)
    requires
        entered(seen),
    ensures
        match read_records(records, i, seen) {
            Ok(all) => entered(all),
            Err(_) => true,
        },
    decreases records.len() - i,
{
    if i < 0 || i >= records.len() {
    } else if records[i].len() == 0 {
        reading_keeps_entered(records, i + 1, seen);
    } else if valid_utf8(records[i]) {
        let record = decode_utf8(records[i]);
        if takes_two(record) {
            if i + 1 < records.len() && valid_utf8(records[i + 1]) {
                if let Ok(e) = renamed(record, decode_utf8(records[i + 1])) {
                    pushing_keeps_entered(seen, e);
                    let next = StatusView { entries: seen.entries.push(e), ..seen };
                    reading_keeps_entered(records, i + 2, next);
                }
            }
        } else if let Ok(next) = read_record(seen, record) {
            if next.entries.len() > seen.entries.len() {
                let e = next.entries.last();
                pushing_keeps_entered(seen, e);
                assert(next.entries =~= seen.entries.push(e));
                assert(next.entries[seen.entries.len() as int] == e);
            }
            assert(entered(next));
            reading_keeps_entered(records, i + 1, next);
        }
    }
}

/// Every untracked path of a status has its entry among the entries.
pub proof fn untracked_paths_have_entries(bytes: Seq<u8>, i: int)
    requires
        status(bytes) is Ok,
        0 <= i < status(bytes)->Ok_0.untracked.len(),
    ensures
        status(bytes)->Ok_0.entries.contains(
            untracked_entry(status(bytes)->Ok_0.untracked[i]),
        ),
{
    let read = read_records(pieces(bytes, 0u8, None), 0, no_status())->Ok_0;
    reading_keeps_entered(pieces(bytes, 0u8, None), 0, no_status());
    let seen = status(bytes)->Ok_0;
    order_is_kept(read.entries, entry_path());
    order_is_kept(read.untracked, itself());
    read.untracked.to_multiset_ensures();
    seen.untracked.to_multiset_ensures();
    read.entries.to_multiset_ensures();
    seen.entries.to_multiset_ensures();
    let path = seen.untracked[i];
    assert(seen.untracked.to_multiset().count(path) > 0);
    assert(read.untracked.to_multiset().count(path) > 0);
    assert(read.untracked.contains(path));
    let k = choose|k: int| 0 <= k < read.untracked.len() && read.untracked[k] == path;
    assert(read.entries.contains(untracked_entry(read.untracked[k])));
    assert(read.entries.to_multiset().count(untracked_entry(path)) > 0);
    assert(seen.entries.to_multiset().count(untracked_entry(path)) > 0);
}

impl RepositorySnapshot {
    /// Compares this checkpoint to `baseline` and classifies every changed path.
    pub fn compare_to(&self, baseline: &RepositorySnapshot, scopes: &Vec<WriteScopeV1>) -> (r:
        BaselineComparison)
        requires
            sorted(self.fingerprints@),
            sorted(baseline.fingerprints@),
        ensures
            differences(r.changed_paths@, self.fingerprints@, baseline.fingerprints@),
            r.scope_classifications@.len() == r.changed_paths@.len(),
            forall|i: int|
                0 <= i < r.changed_paths@.len() ==> classifies(
                    #[trigger] r.scope_classifications@[i],
                    r.changed_paths@[i]@,
                    scopes@,
                ),
    {
        let changed_paths = changed_paths(&self.fingerprints, &baseline.fingerprints);
        let mut scope_classifications: Vec<ScopeClassificationV1> = Vec::new();
        let mut i: usize = 0;
        while i < changed_paths.len()
            invariant
                i <= changed_paths.len(),
                scope_classifications.len() == i,
                forall|j: int|
                    0 <= j < i ==> classifies(
                        #[trigger] scope_classifications@[j],
                        changed_paths@[j]@,
                        scopes@,
                    ),
            decreases changed_paths.len() - i,
        {
            scope_classifications.push(classify_path(changed_paths[i].as_str(), scopes));
            i += 1;
        }
        BaselineComparison { changed_paths, scope_classifications }
    }
}

/// A comparison that shows changes outside the write scopes.
pub open spec fn strays(comparison: BaselineComparison) -> bool {
    exists|i: int|
        0 <= i < comparison.scope_classifications@.len() && (
        #[trigger] comparison.scope_classifications@[i]).classification
            == ScopeClassification::OutOfScope
}

/// Whether a comparison shows changes outside the write scopes.
pub fn has_out_of_scope(comparison: &BaselineComparison) -> (r: bool)
    ensures
        r == strays(*comparison),
{
    let mut i: usize = 0;
    while i < comparison.scope_classifications.len()
        invariant
            i <= comparison.scope_classifications.len(),
            forall|j: int|
                0 <= j < i ==> (
                #[trigger] comparison.scope_classifications@[j]).classification
                    != ScopeClassification::OutOfScope,
        decreases comparison.scope_classifications.len() - i,
    {
        if comparison.scope_classifications[i].classification == ScopeClassification::OutOfScope {
            return true;
        }
        i += 1;
    }
    false
}

/// Two identities of the same worktree.
pub open spec fn same_identity(a: RepositoryIdentity, b: RepositoryIdentity) -> bool {
    components(a.worktree_root@) == components(b.worktree_root@) && components(a.git_common_dir@)
        == components(b.git_common_dir@)
}

fn is_same_identity(a: &RepositoryIdentity, b: &RepositoryIdentity) -> (r: bool)
    ensures
        r == same_identity(*a, *b),
{
    proof {
        path_rank_says(components(a.worktree_root@), components(b.worktree_root@));
        path_rank_says(components(a.git_common_dir@), components(b.git_common_dir@));
    }
    rank_path_texts(a.worktree_root.as_str(), b.worktree_root.as_str()) == Rank::Same
        && rank_path_texts(a.git_common_dir.as_str(), b.git_common_dir.as_str()) == Rank::Same
}

/// Compares a checkpoint with the baseline of its Task; a repository that is no longer the same one
/// is refused.
pub fn assess_checkpoint(
    snapshot: &RepositorySnapshot,
    baseline: &RepositorySnapshot,
    scopes: &Vec<WriteScopeV1>,
) -> (r: Result<BaselineComparison, CoordinatorError>)
    requires
        sorted(snapshot.fingerprints@),
        sorted(baseline.fingerprints@),
    ensures
        match r {
            Ok(comparison) => same_identity(snapshot.identity, baseline.identity) && differences(
                comparison.changed_paths@,
                snapshot.fingerprints@,
                baseline.fingerprints@,
            ) && comparison.scope_classifications@.len() == comparison.changed_paths@.len() && (
            forall|i: int|
                0 <= i < comparison.changed_paths@.len() ==> classifies(
                    #[trigger] comparison.scope_classifications@[i],
                    comparison.changed_paths@[i]@,
                    scopes@,
                )),
            Err(e) => !same_identity(snapshot.identity, baseline.identity) && e@ == refusal(
                ErrorCategory::RepositoryBlocked,
                "repository identity changed after Task dispatch"@,
            ),
        },
{
    if !is_same_identity(&snapshot.identity, &baseline.identity) {
        return Err(
            refuse(
                ErrorCategory::RepositoryBlocked,
                "repository identity changed after Task dispatch",
            ),
        );
    }
    Ok(snapshot.compare_to(baseline, scopes))
}

/// A snapshot compared with itself shows no change.
pub proof fn nothing_differs_from_itself(table: Seq<Fingerprint>, list: Seq<String>)
    requires
        differences(list, table, table),
    ensures
        list.len() == 0,
{
    if list.len() > 0 {
        assert(names(list, components(list[0]@)));
    }
}

/// The paths of a list, by their components.
pub open spec fn path_keys(list: Seq<String>) -> Seq<Seq<Seq<char>>> {
    Seq::new(list.len(), |i: int| components(list[i]@))
}

/// Two lists in order that name the same paths agree in their first `n` places.
proof fn same_names_same_places(a: Seq<String>, b: Seq<String>, n: nat)
    requires
        rising(a),
        rising(b),
        forall|key: Seq<Seq<char>>| #[trigger] names(a, key) <==> names(b, key),
        n <= a.len(),
    ensures
        n <= b.len(),
        forall|i: int| 0 <= i < n ==> components((#[trigger] a[i])@) == components(b[i]@),
    decreases n,
{
    if n > 0 {
        same_names_same_places(a, b, (n - 1) as nat);
        let key = components(a[n - 1]@);
        assert(names(a, key));
        let j = choose|j: int| 0 <= j < b.len() && components((#[trigger] b[j])@) == key;
        path_rank_says(key, key);
        if j < n - 1 {
            assert(components(a[j]@) == components(b[j]@));
            assert(path_rank(components(a[j]@), components(a[n - 1]@)) == Rank::Before);
            assert(false);
        }
        if j > n - 1 {
            let other = components(b[n - 1]@);
            assert(path_rank(components(b[n - 1]@), components(b[j]@)) == Rank::Before);
            assert(names(b, other));
            assert(names(a, other));
            let l = choose|l: int| 0 <= l < a.len() && components((#[trigger] a[l])@) == other;
            path_rank_says(other, other);
            path_rank_says(other, key);
            path_rank_says(key, other);
            if l < n - 1 {
                assert(components(a[l]@) == components(b[l]@));
                assert(path_rank(components(b[l]@), components(b[n - 1]@)) == Rank::Before);
            } else if l > n - 1 {
                assert(path_rank(components(a[n - 1]@), components(a[l]@)) == Rank::Before);
                path_rank_passes_on(other, key, other);
            }
            assert(false);
        }
    }
}

/// The list of paths that changed is the same whichever of two snapshots is the baseline.
pub proof fn differences_are_mutual(
    a: Seq<Fingerprint>,
    b: Seq<Fingerprint>,
    there: Seq<String>,
    back: Seq<String>,
)
    requires
        differences(there, a, b),
        differences(back, b, a),
    ensures
        path_keys(there) == path_keys(back),
{
    assert forall|key: Seq<Seq<char>>| #[trigger] names(there, key) <==> names(back, key) by {
        assert(names(there, key) <==> lookup(a, key) != lookup(b, key));
        assert(names(back, key) <==> lookup(b, key) != lookup(a, key));
    }
    same_names_same_places(there, back, there.len());
    same_names_same_places(back, there, back.len());
    assert(path_keys(there) =~= path_keys(back));
}

} // verus!

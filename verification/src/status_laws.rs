//! What every record of status output comes to.
use vstd::prelude::*;
use vstd::utf8::{
    decode_utf8, encode_utf8, is_ascii_chars, is_ascii_chars_encode_utf8, valid_utf8,
};

use crate::paths::pieces;
use crate::repository::{
    entry_path, itself, no_status, order_is_kept, ordinary, read_record, read_records, renamed,
    status, status_letter, takes_two, without_slashes, EntryView, StatusView,
};
use crate::select::{begins, count_step, count_where};
use crate::text::has_prefix;

verus! {

// ---------------------------------------------------------------------------------------------
// Texts between separators
// ---------------------------------------------------------------------------------------------

pub open spec fn is_one<A>(c: A) -> spec_fn(A) -> bool {
    |x: A| x == c
}

/// How often something stands in a sequence.
pub open spec fn tally<A>(s: Seq<A>, c: A) -> nat {
    count_where(s, is_one(c))
}

proof fn tally_step<A>(s: Seq<A>, c: A, i: int)
    requires
        0 <= i < s.len(),
    ensures
        tally(s.take(i + 1), c) == tally(s.take(i), c) + if s[i] == c {
            1nat
        } else {
            0nat
        },
{
    count_step(s, is_one(c), i);
}

proof fn tally_grows<A>(s: Seq<A>, c: A, i: int, j: int)
    requires
        0 <= i <= j <= s.len(),
    ensures
        tally(s.take(i), c) <= tally(s.take(j), c),
    decreases j,
{
    if i < j {
        tally_grows(s, c, i, j - 1);
        tally_step(s, c, j - 1);
    }
}

/// The last piece stands at the end behind as many separators as there are other pieces.
pub proof fn last_piece_ends<A>(s: Seq<A>, c: A, limit: Option<nat>)
    requires
        limit is Some ==> limit->0 >= 1,
    ensures
        ({
            let f = pieces(s, c, limit);
            let p = f.last();
            let head = s.take(s.len() - p.len());
            &&& f.len() >= 1
            &&& p.len() <= s.len()
            &&& s.skip(s.len() - p.len()) == p
            &&& tally(head, c) == f.len() - 1
            &&& f.len() > 1 ==> p.len() < s.len() && s[s.len() - p.len() - 1] == c
            &&& limit is Some ==> f.len() <= limit->0
            &&& (limit is None || f.len() < limit->0) ==> tally(p, c) == 0
        }),
    decreases s.len(),
{
    if s.len() == 0 {
        assert(s.take(0) =~= Seq::<A>::empty());
        assert(s.skip(0) =~= Seq::<A>::empty());
    } else {
        let t = s.drop_last();
        last_piece_ends(t, c, limit);
        let before = pieces(t, c, limit);
        let f = pieces(s, c, limit);
        let p = f.last();
        let q = before.last();
        assert(s.take(s.len() - 1) =~= t);
        if s.last() == c && crate::paths::within(before.len(), limit) {
            assert(p =~= Seq::<A>::empty());
            assert(s.take(s.len() as int) =~= s);
            tally_step(s, c, s.len() - 1);
            assert(t.take(t.len() as int) =~= t);
            // The separators of the former head and none in the former last piece.
            pieces_add_up(t, c, t.len() - q.len());
            assert(s.skip(s.len() as int) =~= p);
        } else {
            assert(p =~= q.push(s.last()));
            assert(s.skip(s.len() - p.len()) =~= p);
            assert(s.take(s.len() - p.len()) =~= t.take(t.len() - q.len()));
            if p.len() < s.len() {
                assert(s[s.len() - p.len() - 1] == t[t.len() - q.len() - 1]);
            }
            if limit is None || f.len() < limit->0 {
                assert(s.last() != c);
                assert(p.take(p.len() - 1) =~= q);
                assert(p.take(p.len() as int) =~= p);
                tally_step(p, c, p.len() - 1);
            }
        }
    }
}

/// What stands before a place and behind it make up the whole.
proof fn pieces_add_up<A>(s: Seq<A>, c: A, k: int)
    requires
        0 <= k <= s.len(),
    ensures
        tally(s, c) == tally(s.take(k), c) + tally(s.skip(k), c),
    decreases s.len() - k,
{
    if k == s.len() {
        assert(s.take(k) =~= s);
        assert(s.skip(k) =~= Seq::<A>::empty());
    } else {
        pieces_add_up(s, c, k + 1);
        tally_step(s, c, k);
        front_counts(s.skip(k), c);
        assert(s.skip(k).drop_first() =~= s.skip(k + 1));
    }
}

proof fn front_counts<A>(s: Seq<A>, c: A)
    requires
        s.len() > 0,
    ensures
        tally(s, c) == tally(s.drop_first(), c) + if s[0] == c {
            1nat
        } else {
            0nat
        },
    decreases s.len(),
{
    if s.len() == 1 {
        assert(s.drop_last() =~= Seq::<A>::empty());
        assert(s.drop_first() =~= Seq::<A>::empty());
        assert(s.last() == s[0]);
    } else {
        front_counts(s.drop_last(), c);
        assert(s.drop_last().drop_first() =~= s.drop_first().drop_last());
        assert(s.drop_first().last() == s.last());
    }
}

/// Two sequences in a row hold what both hold.
pub proof fn tally_adds<A>(a: Seq<A>, b: Seq<A>, c: A)
    ensures
        tally(a + b, c) == tally(a, c) + tally(b, c),
{
    pieces_add_up(a + b, c, a.len() as int);
    assert((a + b).take(a.len() as int) =~= a);
    assert((a + b).skip(a.len() as int) =~= b);
}

pub proof fn tally_of_one<A>(x: A, c: A)
    ensures
        tally(seq![x], c) == (if x == c {
            1nat
        } else {
            0nat
        }),
{
    let s = seq![x];
    front_counts(s, c);
    assert(s.drop_first() =~= Seq::<A>::empty());
}

/// What stands behind the last separator is the last piece.
pub proof fn last_piece_found<A>(s: Seq<A>, c: A, last: Seq<A>)
    requires
        last.len() < s.len(),
        s.skip(s.len() - last.len()) == last,
        s[s.len() - last.len() - 1] == c,
        tally(last, c) == 0,
    ensures
        pieces(s, c, None).last() == last,
{
    last_piece_ends(s, c, None);
    let p = pieces(s, c, None).last();
    let (a, b) = (s.len() - p.len(), s.len() - last.len());
    if a > b {
        // A separator would stand in `last`.
        let k = a - 1 - b;
        assert(p.len() < s.len());
        if pieces(s, c, None).len() > 1 {
            assert(last[k] == s[a - 1]);
            tally_step(last, c, k);
            tally_grows(last, c, k + 1, last.len() as int);
            assert(last.take(last.len() as int) =~= last);
        } else {
            tally_step(s, c, b - 1);
            tally_grows(s, c, b, a);
        }
    } else if a < b {
        let k = b - 1 - a;
        assert(p[k] == s[b - 1]);
        tally_step(p, c, k);
        tally_grows(p, c, k + 1, p.len() as int);
        assert(p.take(p.len() as int) =~= p);
    }
    assert(s.skip(a) =~= s.skip(b));
}

/// A text without separators is its only piece.
pub proof fn only_piece<A>(s: Seq<A>, c: A)
    requires
        tally(s, c) == 0,
    ensures
        pieces(s, c, None) == seq![s],
    decreases s.len(),
{
    if s.len() > 0 {
        assert(s.take(s.len() as int) =~= s);
        assert(s.take(s.len() - 1) =~= s.drop_last());
        tally_step(s, c, s.len() - 1);
        only_piece(s.drop_last(), c);
        assert(s.drop_last().push(s.last()) =~= s);
        assert(pieces(s, c, None) =~= seq![s]);
    } else {
        assert(s =~= Seq::<A>::empty());
        assert(pieces(s, c, None) =~= seq![s]);
    }
}

/// What stands before the first separator is the first piece.
pub proof fn first_piece_starts<A>(first: Seq<A>, rest: Seq<A>, c: A)
    requires
        tally(first, c) == 0,
    ensures
        pieces(first + seq![c] + rest, c, None)[0] == first,
        pieces(first, c, None)[0] == first,
    decreases rest.len(),
{
    let s = first + seq![c] + rest;
    only_piece(first, c);
    if rest.len() == 0 {
        assert(s.drop_last() =~= first);
        assert(s.last() == c);
    } else {
        first_piece_starts(first, rest.drop_last(), c);
        let t = first + seq![c] + rest.drop_last();
        assert(s.drop_last() =~= t);
        longer_than_one(first, rest.drop_last(), c);
    }
}

proof fn longer_than_one<A>(first: Seq<A>, rest: Seq<A>, c: A)
    ensures
        pieces(first + seq![c] + rest, c, None).len() >= 2,
    decreases rest.len(),
{
    let s = first + seq![c] + rest;
    if rest.len() == 0 {
        assert(s.drop_last() =~= first);
        assert(s.last() == c);
        last_piece_ends(first, c, None);
    } else {
        longer_than_one(first, rest.drop_last(), c);
        assert(s.drop_last() =~= first + seq![c] + rest.drop_last());
    }
}

/// There are as many pieces as separators allow, and one more.
proof fn pieces_are_counted<A>(s: Seq<A>, c: A, n: nat)
    requires
        n >= 1,
    ensures
        pieces(s, c, Some(n)).len() == (if tally(s, c) + 1 < n {
            tally(s, c) + 1
        } else {
            n
        }),
    decreases s.len(),
{
    if s.len() > 0 {
        pieces_are_counted(s.drop_last(), c, n);
        last_piece_ends(s.drop_last(), c, Some(n));
        assert(s.take(s.len() as int) =~= s);
        assert(s.take(s.len() - 1) =~= s.drop_last());
        tally_step(s, c, s.len() - 1);
    }
}

/// The second piece of a text that starts with one character and a separator.
proof fn second_piece_follows(s: Seq<char>, c: char, n: nat)
    requires
        n >= 3,
        s.len() >= 2,
        s[0] != c,
        s[1] == c,
    ensures
        ({
            let f = pieces(s, c, Some(n));
            &&& f.len() >= 2
            &&& 2 + f[1].len() <= s.len()
            &&& f[1] == s.subrange(2, 2 + f[1].len() as int)
            &&& tally(f[1], c) == 0
            &&& f.len() == 2 ==> 2 + f[1].len() == s.len()
            &&& f.len() >= 3 ==> 2 + f[1].len() < s.len() && s[2 + f[1].len() as int] == c
        }),
    decreases s.len(),
{
    let f = pieces(s, c, Some(n));
    if s.len() == 2 {
        let t = s.drop_last();
        assert(t.drop_last() =~= Seq::<char>::empty());
        assert(t.last() == s[0]);
        let b0 = pieces(t.drop_last(), c, Some(n));
        assert(b0 =~= seq![Seq::<char>::empty()]);
        let before = pieces(t, c, Some(n));
        assert(before.len() == 1);
        assert(f[1] =~= Seq::<char>::empty());
        assert(s.subrange(2, 2) =~= Seq::<char>::empty());
    } else {
        let t = s.drop_last();
        second_piece_follows(t, c, n);
        let before = pieces(t, c, Some(n));
        if s.last() == c && crate::paths::within(before.len(), Some(n)) {
            assert(f[1] == before[1]);
            assert(s.subrange(2, 2 + f[1].len() as int) =~= f[1]);
            if before.len() == 2 {
                assert(s[2 + f[1].len() as int] == c);
            }
        } else if before.len() == 2 {
            assert(s.last() != c);
            assert(f[1] =~= before[1].push(s.last()));
            assert(s.subrange(2, 2 + f[1].len() as int) =~= f[1]);
            assert(f[1].take(f[1].len() - 1) =~= before[1]);
            assert(f[1].take(f[1].len() as int) =~= f[1]);
            tally_step(f[1], c, f[1].len() - 1);
        } else {
            assert(f[1] == before[1]);
            assert(s.subrange(2, 2 + f[1].len() as int) =~= f[1]);
        }
    }
}

// ---------------------------------------------------------------------------------------------
// Records
// ---------------------------------------------------------------------------------------------

/// A record with a mark: a character and a space.
pub open spec fn marked(record: Seq<char>, mark: char) -> bool {
    record.len() >= 2 && record[0] == mark && record[1] == ' '
}

/// A record ends in a path that stands behind so many spaces.
pub open spec fn ends_in(record: Seq<char>, spaces: nat, path: Seq<char>) -> bool {
    &&& 0 < path.len() < record.len()
    &&& record.skip(record.len() - path.len()) == path
    &&& record[record.len() - path.len() - 1] == ' '
    &&& tally(record.take(record.len() - path.len()), ' ') == spaces
}

/// A record shows two letters behind its mark.
pub open spec fn lettered(record: Seq<char>) -> bool {
    &&& record.len() > 4
    &&& record[4] == ' '
    &&& record[2] != ' ' && '\0' <= record[2] <= '\u{7f}'
    &&& record[3] != ' ' && '\0' <= record[3] <= '\u{7f}'
}

/// What an entry has from its record and, for a rename, from the record behind it.
pub open spec fn tells(record: Seq<char>, original: Option<Seq<char>>, e: EntryView) -> bool {
    &&& marked(record, '?') ==> {
        &&& e.path == record.skip(2)
        &&& e.path.len() > 0
        &&& e.index_status == seq!['?']
        &&& e.worktree_status == seq!['?']
    }
    &&& marked(record, '1') ==> ends_in(record, 8, e.path)
    &&& marked(record, 'u') ==> ends_in(record, 10, e.path)
    &&& marked(record, '2') ==> ends_in(record, 9, e.path)
    &&& !marked(record, '?') && lettered(record) ==> {
        &&& e.index_status == seq![record[2]]
        &&& e.worktree_status == seq![record[3]]
    }
    &&& e.original_path == original
    &&& original is Some <==> marked(record, '2')
}

/// The records about files that are not ignored, each rename with the path that it came from.
pub open spec fn file_records(records: Seq<Seq<u8>>, i: int) -> Seq<
    (Seq<char>, Option<Seq<char>>),
>
    decreases records.len() - i,
{
    if i < 0 || i >= records.len() {
        Seq::empty()
    } else {
        let record = decode_utf8(records[i]);
        if marked(record, '2') && i + 1 < records.len() {
            seq![(record, Some(decode_utf8(records[i + 1])))] + file_records(records, i + 2)
        } else if marked(record, '1') || marked(record, 'u') || marked(record, '?') {
            seq![(record, None::<Seq<char>>)] + file_records(records, i + 1)
        } else {
            file_records(records, i + 1)
        }
    }
}

/// The records with one mark that stand alone.
pub open spec fn lone_records(records: Seq<Seq<u8>>, i: int, mark: char) -> Seq<Seq<char>>
    decreases records.len() - i,
{
    if i < 0 || i >= records.len() {
        Seq::empty()
    } else {
        let record = decode_utf8(records[i]);
        if marked(record, '2') && i + 1 < records.len() {
            lone_records(records, i + 2, mark)
        } else if marked(record, mark) {
            seq![record] + lone_records(records, i + 1, mark)
        } else {
            lone_records(records, i + 1, mark)
        }
    }
}

/// A path without slashes at its end, made of a record behind its mark.
pub open spec fn bare_path(record: Seq<char>, path: Seq<char>) -> bool {
    &&& 0 < path.len() <= record.len() - 2
    &&& record.subrange(2, 2 + path.len() as int) == path
    &&& path.last() != '/'
    &&& forall|k: int| 2 + path.len() <= k < record.len() ==> record[k] == '/'
}

proof fn prefixes_say(record: Seq<char>)
    ensures
        has_prefix(record, "1 "@) == marked(record, '1'),
        has_prefix(record, "u "@) == marked(record, 'u'),
        has_prefix(record, "2 "@) == marked(record, '2'),
        has_prefix(record, "? "@) == marked(record, '?'),
        has_prefix(record, "! "@) == marked(record, '!'),
        has_prefix(record, "# "@) == marked(record, '#'),
        has_prefix(record, "# branch.oid "@) ==> marked(record, '#'),
        has_prefix(record, "# branch.head "@) ==> marked(record, '#'),
        "? "@.len() == 2,
        "! "@.len() == 2,
        "?"@ == seq!['?'],
{
    reveal_strlit("1 ");
    reveal_strlit("u ");
    reveal_strlit("2 ");
    reveal_strlit("? ");
    reveal_strlit("! ");
    reveal_strlit("# ");
    reveal_strlit("?");
    reveal_strlit("# branch.oid ");
    reveal_strlit("# branch.head ");
    assert("?"@ =~= seq!['?']);
    if record.len() >= 2 {
        let start = record.subrange(0, 2);
        assert(start[0] == record[0] && start[1] == record[1]);
        if marked(record, '1') {
            assert(start =~= "1 "@);
        }
        if marked(record, 'u') {
            assert(start =~= "u "@);
        }
        if marked(record, '2') {
            assert(start =~= "2 "@);
        }
        if marked(record, '?') {
            assert(start =~= "? "@);
        }
        if marked(record, '!') {
            assert(start =~= "! "@);
        }
        if marked(record, '#') {
            assert(start =~= "# "@);
        }
    }
    if has_prefix(record, "# branch.oid "@) {
        let start = record.subrange(0, "# branch.oid "@.len() as int);
        assert(start[0] == '#' && start[1] == ' ');
    }
    if has_prefix(record, "# branch.head "@) {
        let start = record.subrange(0, "# branch.head "@.len() as int);
        assert(start[0] == '#' && start[1] == ' ');
    }
}

proof fn letters_say(record: Seq<char>, count: nat)
    requires
        count >= 3,
        record.len() >= 2,
        record[0] != ' ',
        record[1] == ' ',
        lettered(record),
    ensures
        ({
            let field = pieces(record, ' ', Some(count))[1];
            &&& encode_utf8(field).len() == 2
            &&& status_letter(field, 0) == seq![record[2]]
            &&& status_letter(field, 1) == seq![record[3]]
        }),
{
    second_piece_follows(record, ' ', count);
    let f = pieces(record, ' ', Some(count));
    let field = f[1];
    if field.len() < 2 {
        assert(record[2 + field.len() as int] == ' ');
    }
    if field.len() > 2 {
        assert(field[2] == record[4]);
        let k: int = 2;
        tally_step(field, ' ', k);
        tally_grows(field, ' ', k + 1, field.len() as int);
        assert(field.take(field.len() as int) =~= field);
    }
    assert(field.len() == 2);
    assert(field[0] == record[2] && field[1] == record[3]);
    assert(is_ascii_chars(field));
    is_ascii_chars_encode_utf8(field);
    let bytes = encode_utf8(field);
    assert(bytes[0] as char == field[0]);
    assert(bytes[1] as char == field[1]);
    assert(status_letter(field, 0) =~= seq![record[2]]);
    assert(status_letter(field, 1) =~= seq![record[3]]);
}

proof fn ordinary_records_tell(record: Seq<char>)
    requires
        marked(record, '1') || marked(record, 'u'),
        ordinary(record) is Ok,
    ensures
        tells(record, None, ordinary(record)->Ok_0),
{
    prefixes_say(record);
    let count: nat = if marked(record, '1') {
        9
    } else {
        11
    };
    last_piece_ends(record, ' ', Some(count));
    if lettered(record) {
        letters_say(record, count);
    }
}

proof fn renamed_records_tell(record: Seq<char>, original: Seq<char>)
    requires
        marked(record, '2'),
        renamed(record, original) is Ok,
    ensures
        tells(record, Some(original), renamed(record, original)->Ok_0),
{
    last_piece_ends(record, ' ', Some(10));
    if lettered(record) {
        letters_say(record, 10);
    }
}

proof fn stripping_says(text: Seq<char>)
    ensures
        ({
            let path = without_slashes(text);
            &&& path.len() <= text.len()
            &&& text.take(path.len() as int) == path
            &&& path.len() > 0 ==> path.last() != '/'
            &&& forall|k: int| path.len() <= k < text.len() ==> text[k] == '/'
        }),
    decreases text.len(),
{
    if text.len() > 0 && text.last() == '/' {
        stripping_says(text.drop_last());
        let path = without_slashes(text);
        assert(text.take(path.len() as int) =~= text.drop_last().take(path.len() as int));
        assert forall|k: int| path.len() <= k < text.len() implies text[k] == '/' by {
            if k < text.len() - 1 {
                assert(text.drop_last()[k] == '/');
            }
        }
    } else {
        assert(text.take(text.len() as int) =~= text);
    }
}

/// What the records from the `i`th on add.
spec fn added(records: Seq<Seq<u8>>, i: int, seen: StatusView, all: StatusView) -> bool {
    let files = file_records(records, i);
    let unknown = lone_records(records, i, '?');
    let ignored = lone_records(records, i, '!');
    &&& begins(seen.entries, all.entries)
    &&& all.entries.len() == seen.entries.len() + files.len()
    &&& forall|k: int|
        0 <= k < files.len() ==> tells(
            (#[trigger] files[k]).0,
            files[k].1,
            all.entries[seen.entries.len() + k],
        )
    &&& begins(seen.untracked, all.untracked)
    &&& all.untracked.len() == seen.untracked.len() + unknown.len()
    &&& forall|k: int|
        0 <= k < unknown.len() ==> all.untracked[seen.untracked.len() + k] == (
        #[trigger] unknown[k]).skip(2)
    &&& begins(seen.ignored, all.ignored)
    &&& all.ignored.len() == seen.ignored.len() + ignored.len()
    &&& forall|k: int|
        0 <= k < ignored.len() ==> bare_path(
            #[trigger] ignored[k],
            all.ignored[seen.ignored.len() + k],
        )
}

proof fn reading_adds(records: Seq<Seq<u8>>, i: int, seen: StatusView)
    requires
        0 <= i,
    ensures
        match read_records(records, i, seen) {
            Ok(all) => added(records, i, seen, all),
            Err(_) => true,
        },
    decreases records.len() - i,
{
    if i >= records.len() {
    } else if records[i].len() == 0 {
        reading_adds(records, i + 1, seen);
        assert(decode_utf8(records[i]) =~= Seq::<char>::empty());
    } else if valid_utf8(records[i]) {
        let record = decode_utf8(records[i]);
        prefixes_say(record);
        let all = read_records(records, i, seen);
        let files = file_records(records, i);
        let unknown = lone_records(records, i, '?');
        let ignored = lone_records(records, i, '!');
        if takes_two(record) {
            if i + 1 < records.len() && valid_utf8(records[i + 1]) {
                let original = decode_utf8(records[i + 1]);
                if let Ok(e) = renamed(record, original) {
                    renamed_records_tell(record, original);
                    let next = StatusView { entries: seen.entries.push(e), ..seen };
                    reading_adds(records, i + 2, next);
                    if all is Ok {
                        let rest = file_records(records, i + 2);
                        assert forall|k: int| 0 <= k < files.len() implies tells(
                            (#[trigger] files[k]).0,
                            files[k].1,
                            all->Ok_0.entries[seen.entries.len() + k],
                        ) by {
                            if k > 0 {
                                assert(files[k] == rest[k - 1]);
                                let at = next.entries.len() + (k - 1);
                                assert(at == seen.entries.len() + k);
                            } else {
                                assert(all->Ok_0.entries[seen.entries.len() as int]
                                    == next.entries[seen.entries.len() as int]);
                            }
                        }
                        assert(begins(seen.entries, all->Ok_0.entries)) by {
                            assert forall|k: int| 0 <= k < seen.entries.len() implies
                            #[trigger] all->Ok_0.entries[k] == seen.entries[k] by {
                                assert(next.entries[k] == seen.entries[k]);
                            }
                        }
                    }
                }
            }
        } else if let Ok(next) = read_record(seen, record) {
            reading_adds(records, i + 1, next);
            if all is Ok {
                one_record_adds(records, i, seen, next, all->Ok_0);
            }
        }
    }
}

proof fn one_record_adds(
    records: Seq<Seq<u8>>,
    i: int,
    seen: StatusView,
    next: StatusView,
    all: StatusView,
)
    requires
        0 <= i < records.len(),
        valid_utf8(records[i]),
        !takes_two(decode_utf8(records[i])),
        read_record(seen, decode_utf8(records[i])) == Ok::<
            StatusView,
            crate::repository::Fault,
        >(next),
        added(records, i + 1, next, all),
    ensures
        added(records, i, seen, all),
{
    let record = decode_utf8(records[i]);
    prefixes_say(record);
    let files = file_records(records, i);
    let unknown = lone_records(records, i, '?');
    let ignored = lone_records(records, i, '!');
    let more_files = file_records(records, i + 1);
    let more_unknown = lone_records(records, i + 1, '?');
    let more_ignored = lone_records(records, i + 1, '!');
    if marked(record, '1') || marked(record, 'u') {
        ordinary_records_tell(record);
    }
    if marked(record, '!') {
        let text = record.skip(2);
        stripping_says(text);
        let path = without_slashes(text);
        assert(record.subrange(2, 2 + path.len() as int) =~= path);
        assert forall|k: int| 2 + path.len() <= k < record.len() implies record[k] == '/' by {
            assert(text[k - 2] == '/');
        }
    }
    assert(begins(seen.entries, next.entries));
    assert(begins(seen.untracked, next.untracked));
    assert(begins(seen.ignored, next.ignored));
    assert forall|k: int| 0 <= k < files.len() implies tells(
        (#[trigger] files[k]).0,
        files[k].1,
        all.entries[seen.entries.len() + k],
    ) by {
        if files.len() > more_files.len() {
            if k > 0 {
                assert(files[k] == more_files[k - 1]);
                assert(next.entries.len() + (k - 1) == seen.entries.len() + k);
            } else {
                assert(all.entries[seen.entries.len() as int]
                    == next.entries[seen.entries.len() as int]);
            }
        } else {
            assert(files[k] == more_files[k]);
        }
    }
    assert forall|k: int| 0 <= k < unknown.len() implies all.untracked[seen.untracked.len() + k]
        == (#[trigger] unknown[k]).skip(2) by {
        if unknown.len() > more_unknown.len() {
            if k > 0 {
                assert(unknown[k] == more_unknown[k - 1]);
                assert(next.untracked.len() + (k - 1) == seen.untracked.len() + k);
            } else {
                assert(all.untracked[seen.untracked.len() as int]
                    == next.untracked[seen.untracked.len() as int]);
            }
        } else {
            assert(unknown[k] == more_unknown[k]);
        }
    }
    assert forall|k: int| 0 <= k < ignored.len() implies bare_path(
        #[trigger] ignored[k],
        all.ignored[seen.ignored.len() + k],
    ) by {
        if ignored.len() > more_ignored.len() {
            if k > 0 {
                assert(ignored[k] == more_ignored[k - 1]);
                assert(next.ignored.len() + (k - 1) == seen.ignored.len() + k);
            } else {
                assert(all.ignored[seen.ignored.len() as int]
                    == next.ignored[seen.ignored.len() as int]);
            }
        } else {
            assert(ignored[k] == more_ignored[k]);
        }
    }
    assert forall|k: int| 0 <= k < seen.entries.len() implies #[trigger] all.entries[k]
        == seen.entries[k] by {
        assert(next.entries[k] == seen.entries[k]);
    }
    assert forall|k: int| 0 <= k < seen.untracked.len() implies #[trigger] all.untracked[k]
        == seen.untracked[k] by {
        assert(next.untracked[k] == seen.untracked[k]);
    }
    assert forall|k: int| 0 <= k < seen.ignored.len() implies #[trigger] all.ignored[k]
        == seen.ignored[k] by {
        assert(next.ignored[k] == seen.ignored[k]);
    }
}

// ---------------------------------------------------------------------------------------------
// Laws
// ---------------------------------------------------------------------------------------------

/// Every record about a file that is not ignored gives exactly one entry, and nothing else does:
/// changed, conflicted, renamed and unknown files alike. An entry has the path that its record ends
/// in and, where the record shows them, its two letters.
pub proof fn every_file_record_gives_one_entry(bytes: Seq<u8>)
    ensures
        match status(bytes) {
            Ok(seen) => exists|read: Seq<EntryView>|
                {
                    let files = file_records(pieces(bytes, 0u8, None), 0);
                    &&& #[trigger] read.to_multiset() == seen.entries.to_multiset()
                    &&& read.len() == files.len()
                    &&& forall|k: int|
                        0 <= k < files.len() ==> tells(
                            (#[trigger] files[k]).0,
                            files[k].1,
                            read[k],
                        )
                },
            Err(_) => true,
        },
{
    let records = pieces(bytes, 0u8, None);
    reading_adds(records, 0, no_status());
    if let Ok(all) = read_records(records, 0, no_status()) {
        order_is_kept(all.entries, entry_path());
        let seen = status(bytes)->Ok_0;
        let files = file_records(records, 0);
        assert(all.entries.to_multiset() == seen.entries.to_multiset());
        assert forall|k: int| 0 <= k < files.len() implies tells(
            (#[trigger] files[k]).0,
            files[k].1,
            all.entries[k],
        ) by {
            assert(no_status().entries.len() + k == k);
        }
    }
}

/// The unknown paths are those of the records with a question mark, and the ignored paths those of
/// the records with an exclamation mark, without slashes at their ends.
pub proof fn unknown_and_ignored_records_give_their_paths(bytes: Seq<u8>)
    ensures
        match status(bytes) {
            Ok(seen) => {
                &&& exists|read: Seq<Seq<char>>|
                    {
                        let unknown = lone_records(pieces(bytes, 0u8, None), 0, '?');
                        &&& #[trigger] read.to_multiset() == seen.untracked.to_multiset()
                        &&& read.len() == unknown.len()
                        &&& forall|k: int|
                            0 <= k < unknown.len() ==> read[k] == (#[trigger] unknown[k]).skip(2)
                    }
                &&& exists|read: Seq<Seq<char>>|
                    {
                        let ignored = lone_records(pieces(bytes, 0u8, None), 0, '!');
                        &&& #[trigger] read.to_multiset() == seen.ignored.to_multiset()
                        &&& read.len() == ignored.len()
                        &&& forall|k: int|
                            0 <= k < ignored.len() ==> bare_path(#[trigger] ignored[k], read[k])
                    }
            },
            Err(_) => true,
        },
{
    let records = pieces(bytes, 0u8, None);
    reading_adds(records, 0, no_status());
    if let Ok(all) = read_records(records, 0, no_status()) {
        order_is_kept(all.untracked, itself());
        order_is_kept(all.ignored, itself());
        let seen = status(bytes)->Ok_0;
        let unknown = lone_records(records, 0, '?');
        let ignored = lone_records(records, 0, '!');
        assert(all.untracked.to_multiset() == seen.untracked.to_multiset());
        assert(all.ignored.to_multiset() == seen.ignored.to_multiset());
        assert forall|k: int| 0 <= k < unknown.len() implies all.untracked[k] == (
        #[trigger] unknown[k]).skip(2) by {
            assert(no_status().untracked.len() + k == k);
        }
        assert forall|k: int| 0 <= k < ignored.len() implies bare_path(
            #[trigger] ignored[k],
            all.ignored[k],
        ) by {
            assert(no_status().ignored.len() + k == k);
        }
    }
}

/// A header with a name.
pub open spec fn names_header(record: Seq<char>, name: Seq<char>) -> bool {
    record.len() >= name.len() && record.take(name.len() as int) == name
}

/// The last of the headers with a name is the `k`th header.
pub open spec fn last_header(headers: Seq<Seq<char>>, name: Seq<char>, k: int) -> bool {
    &&& 0 <= k < headers.len()
    &&& names_header(headers[k], name)
    &&& forall|j: int| k < j < headers.len() ==> !names_header(#[trigger] headers[j], name)
}

/// What headers come to: the value behind the last header with the name, unless it says that there
/// is none, and what was known before where no header has the name.
spec fn settles(
    headers: Seq<Seq<char>>,
    name: Seq<char>,
    nothing: Seq<char>,
    before: Option<Seq<char>>,
    after: Option<Seq<char>>,
) -> bool {
    &&& forall|k: int| #[trigger]
        last_header(headers, name, k) ==> after == (if headers[k].skip(name.len() as int)
            == nothing {
            None
        } else {
            Some(headers[k].skip(name.len() as int))
        })
    &&& (forall|k: int| 0 <= k < headers.len() ==> !names_header(#[trigger] headers[k], name))
        ==> after == before
}

proof fn settling_goes_on(
    first: Seq<char>,
    rest: Seq<Seq<char>>,
    name: Seq<char>,
    nothing: Seq<char>,
    before: Option<Seq<char>>,
    between: Option<Seq<char>>,
    after: Option<Seq<char>>,
)
    requires
        settles(rest, name, nothing, between, after),
        between == (if names_header(first, name) {
            if first.skip(name.len() as int) == nothing {
                None
            } else {
                Some(first.skip(name.len() as int))
            }
        } else {
            before
        }),
    ensures
        settles(seq![first] + rest, name, nothing, before, after),
{
    let headers = seq![first] + rest;
    assert forall|j: int| 0 <= j < rest.len() implies #[trigger] rest[j] == headers[j + 1] by {}
    assert forall|k: int| #[trigger] last_header(headers, name, k) implies after == (if headers[k].skip(
        name.len() as int,
    ) == nothing {
        None
    } else {
        Some(headers[k].skip(name.len() as int))
    }) by {
        if k > 0 {
            assert(rest[k - 1] == headers[k]);
            assert forall|j: int| k - 1 < j < rest.len() implies !names_header(
                #[trigger] rest[j],
                name,
            ) by {
                assert(rest[j] == headers[j + 1]);
            }
            assert(last_header(rest, name, k - 1));
        } else {
            assert forall|j: int| 0 <= j < rest.len() implies !names_header(
                #[trigger] rest[j],
                name,
            ) by {
                assert(rest[j] == headers[j + 1]);
            }
        }
    }
    if forall|k: int| 0 <= k < headers.len() ==> !names_header(#[trigger] headers[k], name) {
        assert(headers[0] == first);
        assert forall|j: int| 0 <= j < rest.len() implies !names_header(
            #[trigger] rest[j],
            name,
        ) by {
            assert(rest[j] == headers[j + 1]);
        }
    }
}

proof fn headers_settle(records: Seq<Seq<u8>>, i: int, seen: StatusView)
    requires
        0 <= i,
    ensures
        match read_records(records, i, seen) {
            Ok(all) => {
                let headers = lone_records(records, i, '#');
                &&& settles(headers, "# branch.oid "@, "(initial)"@, seen.head, all.head)
                &&& settles(headers, "# branch.head "@, "(detached)"@, seen.branch, all.branch)
            },
            Err(_) => true,
        },
    decreases records.len() - i,
{
    if i >= records.len() {
    } else if records[i].len() == 0 {
        headers_settle(records, i + 1, seen);
        assert(decode_utf8(records[i]) =~= Seq::<char>::empty());
    } else if valid_utf8(records[i]) {
        let record = decode_utf8(records[i]);
        prefixes_say(record);
        if takes_two(record) {
            if i + 1 < records.len() && valid_utf8(records[i + 1]) {
                if let Ok(e) = renamed(record, decode_utf8(records[i + 1])) {
                    let next = StatusView { entries: seen.entries.push(e), ..seen };
                    headers_settle(records, i + 2, next);
                }
            }
        } else if let Ok(next) = read_record(seen, record) {
            headers_settle(records, i + 1, next);
            if let (true, Ok(all)) = (marked(record, '#'), read_records(records, i, seen)) {
                let rest = lone_records(records, i + 1, '#');
                let (oid, head) = ("# branch.oid "@, "# branch.head "@);
                reveal_strlit("# branch.oid ");
                reveal_strlit("# branch.head ");
                assert(names_header(record, oid) == has_prefix(record, oid)) by {
                    if record.len() >= oid.len() {
                        assert(record.take(oid.len() as int) =~= record.subrange(
                            0,
                            oid.len() as int,
                        ));
                    }
                }
                assert(names_header(record, head) == has_prefix(record, head)) by {
                    if record.len() >= head.len() {
                        assert(record.take(head.len() as int) =~= record.subrange(
                            0,
                            head.len() as int,
                        ));
                    }
                }
                assert(!(names_header(record, oid) && names_header(record, head))) by {
                    if names_header(record, oid) && names_header(record, head) {
                        assert(record.take(oid.len() as int)[9] == oid[9]);
                        assert(record.take(head.len() as int)[9] == head[9]);
                    }
                }
                settling_goes_on(
                    record,
                    rest,
                    oid,
                    "(initial)"@,
                    seen.head,
                    next.head,
                    all.head,
                );
                settling_goes_on(
                    record,
                    rest,
                    head,
                    "(detached)"@,
                    seen.branch,
                    next.branch,
                    all.branch,
                );
            }
        }
    }
}

/// The head is what the last `branch.oid` header says, and the branch what the last `branch.head`
/// header says; an initial commit is no head and a detached head no branch.
pub proof fn headers_give_head_and_branch(bytes: Seq<u8>, k: int)
    ensures
        match status(bytes) {
            Ok(seen) => {
                let headers = lone_records(pieces(bytes, 0u8, None), 0, '#');
                &&& last_header(headers, "# branch.oid "@, k) ==> seen.head == (if headers[k].skip(
                    13,
                ) == "(initial)"@ {
                    None
                } else {
                    Some(headers[k].skip(13))
                })
                &&& last_header(headers, "# branch.head "@, k) ==> seen.branch == (
                if headers[k].skip(14) == "(detached)"@ {
                    None
                } else {
                    Some(headers[k].skip(14))
                })
                &&& seen.head is Some ==> exists|j: int| #[trigger]
                    last_header(headers, "# branch.oid "@, j)
                &&& seen.branch is Some ==> exists|j: int| #[trigger]
                    last_header(headers, "# branch.head "@, j)
            },
            Err(_) => true,
        },
{
    let records = pieces(bytes, 0u8, None);
    headers_settle(records, 0, no_status());
    reveal_strlit("# branch.oid ");
    reveal_strlit("# branch.head ");
    let headers = lone_records(records, 0, '#');
    a_last_header_stands(headers, "# branch.oid "@, headers.len());
    a_last_header_stands(headers, "# branch.head "@, headers.len());
}

proof fn a_last_header_stands(headers: Seq<Seq<char>>, name: Seq<char>, n: nat)
    requires
        n <= headers.len(),
        forall|j: int| n <= j < headers.len() ==> !names_header(#[trigger] headers[j], name),
    ensures
        (exists|j: int| #[trigger] last_header(headers, name, j)) || (forall|j: int|
            0 <= j < headers.len() ==> !names_header(#[trigger] headers[j], name)),
    decreases n,
{
    if n > 0 {
        if names_header(headers[n - 1], name) {
            assert(last_header(headers, name, n - 1));
        } else {
            a_last_header_stands(headers, name, (n - 1) as nat);
        }
    }
}

// ---------------------------------------------------------------------------------------------
// What is read at all
// ---------------------------------------------------------------------------------------------

/// A changed, conflicted or renamed record in full: two letters, and a path behind so many spaces.
pub open spec fn complete(record: Seq<char>, spaces: nat) -> bool {
    lettered(record) && exists|path: Seq<char>| #[trigger] ends_in(record, spaces, path)
}

/// The records from the `i`th on are all such as Git writes.
pub open spec fn sound(records: Seq<Seq<u8>>, i: int) -> bool
    decreases records.len() - i,
{
    if i < 0 || i >= records.len() {
        true
    } else if records[i].len() == 0 {
        sound(records, i + 1)
    } else if !valid_utf8(records[i]) {
        false
    } else {
        let record = decode_utf8(records[i]);
        if marked(record, '2') {
            &&& complete(record, 9)
            &&& i + 1 < records.len()
            &&& valid_utf8(records[i + 1])
            &&& decode_utf8(records[i + 1]).len() > 0
            &&& sound(records, i + 2)
        } else {
            &&& sound(records, i + 1)
            &&& marked(record, '#') || (marked(record, '1') && complete(record, 8)) || (marked(
                record,
                'u',
            ) && complete(record, 10)) || (marked(record, '?') && record.len() > 2) || (marked(
                record,
                '!',
            ) && exists|k: int| 2 <= k < record.len() && #[trigger] record[k] != '/')
        }
    }
}

/// A record in full splits into as many fields as there are spaces, and the path.
proof fn complete_records_split(record: Seq<char>, spaces: nat)
    requires
        record.len() >= 2,
        record[0] != ' ',
        record[1] == ' ',
        spaces >= 2,
        complete(record, spaces),
    ensures
        ({
            let f = pieces(record, ' ', Some(spaces + 1));
            &&& f.len() == spaces + 1
            &&& f[spaces as int].len() > 0
            &&& encode_utf8(f[1]).len() == 2
        }),
{
    let path = choose|path: Seq<char>| #[trigger] ends_in(record, spaces, path);
    let at = record.len() - path.len();
    pieces_are_counted(record, ' ', spaces + 1);
    tally_grows(record, ' ', at, record.len() as int);
    assert(record.take(record.len() as int) =~= record);
    last_piece_ends(record, ' ', Some(spaces + 1));
    letters_say(record, spaces + 1);
    let f = pieces(record, ' ', Some(spaces + 1));
    let p = f.last();
    let found = record.len() - p.len();
    if p.len() == 0 {
        // The place behind the last space would hold one space more than there is before the path.
        tally_grows(record, ' ', at, found - 1);
        tally_step(record, ' ', found - 1);
    }
}

proof fn sound_records_are_read(records: Seq<Seq<u8>>, i: int, seen: StatusView)
    requires
        0 <= i,
        sound(records, i),
    ensures
        read_records(records, i, seen) is Ok,
    decreases records.len() - i,
{
    if i >= records.len() {
    } else if records[i].len() == 0 {
        sound_records_are_read(records, i + 1, seen);
    } else {
        let record = decode_utf8(records[i]);
        prefixes_say(record);
        if marked(record, '2') {
            complete_records_split(record, 9);
            let original = decode_utf8(records[i + 1]);
            let e = renamed(record, original)->Ok_0;
            assert(renamed(record, original) is Ok);
            let next = StatusView { entries: seen.entries.push(e), ..seen };
            sound_records_are_read(records, i + 2, next);
        } else {
            if marked(record, '1') {
                complete_records_split(record, 8);
            }
            if marked(record, 'u') {
                complete_records_split(record, 10);
            }
            if marked(record, '!') {
                let text = record.skip(2);
                stripping_says(text);
                let k = choose|k: int| 2 <= k < record.len() && #[trigger] record[k] != '/';
                assert(text[k - 2] != '/');
                assert(text =~= crate::repository::behind(record, "! "@));
            }
            if marked(record, '?') {
                assert(crate::repository::behind(record, "? "@).len() > 0);
            }
            assert(read_record(seen, record) is Ok);
            sound_records_are_read(records, i + 1, read_record(seen, record)->Ok_0);
        }
    }
}

/// Output made of records such as Git writes is read.
pub proof fn sound_output_is_read(bytes: Seq<u8>)
    requires
        sound(pieces(bytes, 0u8, None), 0),
    ensures
        status(bytes) is Ok,
{
    sound_records_are_read(pieces(bytes, 0u8, None), 0, no_status());
}

/// Output with a record that has none of the six marks is refused.
pub proof fn unmarked_records_are_refused(records: Seq<Seq<u8>>, i: int, seen: StatusView)
    requires
        0 <= i < records.len(),
        records[i].len() > 0,
        valid_utf8(records[i]),
        ({
            let record = decode_utf8(records[i]);
            !marked(record, '1') && !marked(record, '2') && !marked(record, 'u') && !marked(
                record,
                '?',
            ) && !marked(record, '!') && !marked(record, '#')
        }),
    ensures
        read_records(records, i, seen) == Err::<StatusView, crate::repository::Fault>(
            crate::repository::Fault::InvalidStatus(decode_utf8(records[i])),
        ),
{
    prefixes_say(decode_utf8(records[i]));
}

} // verus!

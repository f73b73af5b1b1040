//! How texts are read: white space, numbers, paths, releases and mappings.
use vstd::prelude::*;

use crate::error::Refusal;
use crate::herdr::{
    at_least, is_digit, natural, release, resolved, shows_terminal, unsigned_digits,
    written_number, HerdrFault, Location, PaneInfo,
};
use crate::paths::{
    below, components, dot, is_below, is_void, last_component, named, parent, pieces, root,
};
use crate::repository::WriteScopeV1;
use crate::scopes::{entry_verdict, scope_verdict, EntryKind, EntryStep, ScopeFacts};
use crate::select::{count_where, first_found, first_missing, first_says};
use crate::status_laws::{last_piece_ends, only_piece, tally};
use crate::text::{blank, decimal, joined, trim_end, trim_start, trimmed, white_space};
use crate::workspace::mapping;

verus! {

// ---------------------------------------------------------------------------------------------
// White space
// ---------------------------------------------------------------------------------------------

proof fn ends_are_trimmed(s: Seq<char>)
    ensures
        ({
            let t = trim_end(s);
            &&& t.len() <= s.len()
            &&& s.take(t.len() as int) == t
            &&& blank(s.skip(t.len() as int))
            &&& t.len() > 0 ==> !white_space(t.last())
        }),
    decreases s.len(),
{
    let t = trim_end(s);
    if s.len() > 0 && white_space(s.last()) {
        let d = s.drop_last();
        ends_are_trimmed(d);
        assert(s.take(t.len() as int) =~= d.take(t.len() as int));
        assert forall|i: int| 0 <= i < s.skip(t.len() as int).len() implies white_space(
            #[trigger] s.skip(t.len() as int)[i],
        ) by {
            if i < d.skip(t.len() as int).len() {
                assert(d.skip(t.len() as int)[i] == s.skip(t.len() as int)[i]);
            }
        }
    } else {
        assert(s.take(t.len() as int) =~= s);
    }
}

proof fn beginnings_are_trimmed(s: Seq<char>)
    ensures
        ({
            let t = trim_start(s);
            &&& t.len() <= s.len()
            &&& s.skip(s.len() - t.len()) == t
            &&& blank(s.take(s.len() - t.len()))
            &&& t.len() > 0 ==> !white_space(t[0])
        }),
    decreases s.len(),
{
    let t = trim_start(s);
    if s.len() > 0 && white_space(s[0]) {
        let d = s.drop_first();
        beginnings_are_trimmed(d);
        assert(s.skip(s.len() - t.len()) =~= d.skip(d.len() - t.len()));
        assert forall|i: int| 0 <= i < s.take(s.len() - t.len()).len() implies white_space(
            #[trigger] s.take(s.len() - t.len())[i],
        ) by {
            if i > 0 {
                assert(d.take(d.len() - t.len())[i - 1] == s.take(s.len() - t.len())[i]);
            }
        }
    } else {
        assert(s.skip(s.len() - t.len()) =~= s);
    }
}

/// Trimming leaves a part of a text that neither begins nor ends with white space, and what it
/// leaves out on both sides is white space only.
pub proof fn trimming_leaves_out_white_space(s: Seq<char>)
    ensures
        exists|a: int, b: int|
            {
                &&& 0 <= a <= b <= s.len()
                &&& trimmed(s) == s.subrange(a, b)
                &&& blank(#[trigger] s.take(a))
                &&& blank(#[trigger] s.skip(b))
            },
        trimmed(s).len() > 0 ==> !white_space(trimmed(s)[0]) && !white_space(trimmed(s).last()),
        (trimmed(s).len() == 0) == blank(s),
{
    let t = trim_start(s);
    let u = trimmed(s);
    beginnings_are_trimmed(s);
    ends_are_trimmed(t);
    let a = s.len() - t.len();
    let b = a + u.len();
    assert(u =~= s.subrange(a, b)) by {
        assert(u =~= t.take(u.len() as int));
        assert(t.take(u.len() as int) =~= s.subrange(a, b));
    }
    assert(s.skip(b) =~= t.skip(u.len() as int));
    assert(blank(s.take(a)) && blank(s.skip(b)));
    if u.len() > 0 {
        assert(u[0] == t[0]);
        assert(s[a] == u[0]);
    }
    if u.len() == 0 {
        assert forall|i: int| 0 <= i < s.len() implies white_space(#[trigger] s[i]) by {
            if i < a {
                assert(s.take(a)[i] == s[i]);
            } else {
                assert(s.skip(b)[i - b] == s[i]);
            }
        }
    }
}

// ---------------------------------------------------------------------------------------------
// Numbers
// ---------------------------------------------------------------------------------------------

proof fn digits_are_read(n: nat)
    ensures
        decimal(n).len() > 0,
        forall|i: int| 0 <= i < decimal(n).len() ==> '0' <= #[trigger] decimal(n)[i] <= '9',
        written_number(decimal(n)) == n,
    decreases n,
{
    if n < 10 {
        let s = decimal(n);
        assert(s.drop_last() =~= Seq::<char>::empty());
        assert(written_number(s.drop_last()) == 0);
    } else {
        digits_are_read(n / 10);
        let s = decimal(n);
        assert(s.drop_last() =~= decimal(n / 10));
        assert forall|i: int| 0 <= i < s.len() implies '0' <= #[trigger] s[i] <= '9' by {
            if i < s.len() - 1 {
                assert(s[i] == decimal(n / 10)[i]);
            }
        }
    }
}

/// A number that is written in decimal notation is read back, with or without a plus sign.
pub proof fn written_numbers_are_read_back(n: u64)
    ensures
        natural(decimal(n as nat)) == Some(n),
        natural(seq!['+'] + decimal(n as nat)) == Some(n),
{
    let s = decimal(n as nat);
    digits_are_read(n as nat);
    assert(s[0] != '+');
    assert(unsigned_digits(seq!['+'] + s) =~= s);
}

/// What is read as a number consists of digits, behind an optional plus sign, and one digit more
/// makes ten times the number and that digit.
pub proof fn numbers_consist_of_digits(text: Seq<char>, c: char)
    ensures
        natural(text) is Some ==> {
            let n = natural(text)->0;
            &&& text.len() > 0
            &&& text[0] == '+' ==> text.len() > 1
            &&& forall|i: int|
                0 < i < text.len() ==> '0' <= #[trigger] text[i] <= '9'
            &&& text[0] == '+' || '0' <= text[0] <= '9'
            &&& '0' <= c <= '9' && n * 10 + (c as u32 - '0' as u32) <= u64::MAX ==> natural(
                text.push(c),
            ) == Some((n * 10 + (c as u32 - '0' as u32)) as u64)
            &&& !('0' <= c <= '9') ==> natural(text.push(c)) is None
        },
        natural(seq![c]) == if '0' <= c <= '9' {
            Some((c as u32 - '0' as u32) as u64)
        } else {
            None
        },
{
    let digits = unsigned_digits(text);
    if natural(text) is Some {
        assert forall|i: int| 0 < i < text.len() implies '0' <= #[trigger] text[i] <= '9' by {
            if text[0] == '+' {
                assert(digits[i - 1] == text[i]);
            } else {
                assert(digits[i] == text[i]);
            }
        }
        if text[0] != '+' {
            assert(digits[0] == text[0]);
        }
        let more = text.push(c);
        let grown = unsigned_digits(more);
        assert(grown =~= digits.push(c));
        assert(grown.drop_last() =~= digits);
        if '0' <= c <= '9' {
            assert forall|i: int| 0 <= i < grown.len() implies is_digit(
                #[trigger] grown[i],
            ) by {
                if i < digits.len() {
                    assert(grown[i] == digits[i]);
                }
            }
        } else {
            assert(grown[grown.len() - 1] == c);
        }
    }
    let one = seq![c];
    if c == '+' {
        assert(unsigned_digits(one).len() == 0);
    } else {
        assert(unsigned_digits(one) == one);
        assert(one.drop_last() =~= Seq::<char>::empty());
        assert(written_number(one.drop_last()) == 0);
        if '0' <= c <= '9' {
            assert forall|i: int| 0 <= i < one.len() implies is_digit(#[trigger] one[i]) by {}
        } else {
            assert(!is_digit(one[0]));
        }
    }
}

// ---------------------------------------------------------------------------------------------
// Pieces
// ---------------------------------------------------------------------------------------------

proof fn ended_pieces<A>(s: Seq<A>, c: A)
    ensures
        pieces(s.push(c), c, None) == pieces(s, c, None).push(Seq::<A>::empty()),
        pieces(s, c, None).len() >= 1,
    decreases s.len(),
{
    assert(s.push(c).drop_last() =~= s);
    last_piece_ends(s, c, None);
}

proof fn longer_last_piece<A>(s: Seq<A>, q: Seq<A>, c: A)
    requires
        forall|i: int| 0 <= i < q.len() ==> #[trigger] q[i] != c,
    ensures
        pieces(s + q, c, None) == pieces(s, c, None).drop_last().push(
            pieces(s, c, None).last() + q,
        ),
        pieces(s, c, None).len() >= 1,
    decreases q.len(),
{
    last_piece_ends(s, c, None);
    let f = pieces(s, c, None);
    if q.len() == 0 {
        assert(s + q =~= s);
        assert(f.last() + q =~= f.last());
        assert(f.drop_last().push(f.last()) =~= f);
    } else {
        let d = q.drop_last();
        assert forall|i: int| 0 <= i < d.len() implies #[trigger] d[i] != c by {
            assert(d[i] == q[i]);
        }
        longer_last_piece(s, d, c);
        assert((s + q).drop_last() =~= s + d);
        assert((s + q).last() == q[q.len() - 1]);
        let before = pieces(s + d, c, None);
        assert(before.drop_last() =~= f.drop_last());
        assert((f.last() + d).push(q.last()) =~= f.last() + q);
    }
}

/// What stands behind a separator adds pieces behind those before it.
proof fn further_pieces<A>(s: Seq<A>, q: Seq<A>, c: A)
    ensures
        ({
            let f = pieces(s, c, None);
            let g = pieces(s.push(c) + q, c, None);
            &&& g.len() > f.len()
            &&& f.len() >= 1
            &&& g.take(f.len() as int) == f
        }),
    decreases q.len(),
{
    let f = pieces(s, c, None);
    ended_pieces(s, c);
    if q.len() == 0 {
        assert(s.push(c) + q =~= s.push(c));
        assert(pieces(s.push(c), c, None).take(f.len() as int) =~= f);
    } else {
        let d = q.drop_last();
        further_pieces(s, d, c);
        assert((s.push(c) + q).drop_last() =~= s.push(c) + d);
        let before = pieces(s.push(c) + d, c, None);
        let g = pieces(s.push(c) + q, c, None);
        assert(g.take(f.len() as int) =~= before.take(f.len() as int));
    }
}

// ---------------------------------------------------------------------------------------------
// Paths
// ---------------------------------------------------------------------------------------------

proof fn same_pieces_name_the_same(a: Seq<Seq<char>>, b: Seq<Seq<char>>, n: nat)
    requires
        n <= a.len(),
        n <= b.len(),
        forall|i: int| 0 <= i < n ==> #[trigger] a[i] == b[i],
    ensures
        named(a, n) == named(b, n),
    decreases n,
{
    if n > 0 {
        assert(a[n - 1] == b[n - 1]);
        same_pieces_name_the_same(a, b, (n - 1) as nat);
    }
}

proof fn names_only_grow(all: Seq<Seq<char>>, n: nat, m: nat)
    requires
        n <= m <= all.len(),
    ensures
        named(all, n).len() <= named(all, m).len(),
        named(all, m).take(named(all, n).len() as int) == named(all, n),
    decreases m,
{
    if n == m {
        assert(named(all, m).take(named(all, n).len() as int) =~= named(all, n));
    } else {
        names_only_grow(all, n, (m - 1) as nat);
        assert(named(all, m).take(named(all, n).len() as int) =~= named(all, (m - 1) as nat).take(
            named(all, n).len() as int,
        ));
    }
}

/// A slash at the end of a path, and a dot behind one, add nothing to it.
pub proof fn slashes_and_dots_add_nothing(path: Seq<char>)
    requires
        path.len() > 0,
    ensures
        components(path.push('/')) == components(path),
        components(path.push('/').push('.')) == components(path),
{
    reveal(components);
    let all = pieces(path, '/', None);
    let n = all.len();
    ended_pieces(path, '/');
    let more = pieces(path.push('/'), '/', None);
    assert(path.push('/')[0] == path[0]);
    same_pieces_name_the_same(all, more, n);
    let q = seq!['.'];
    longer_last_piece(path.push('/'), q, '/');
    assert(path.push('/') + q =~= path.push('/').push('.'));
    let dotted = pieces(path.push('/').push('.'), '/', None);
    assert(more.last() + q =~= dot());
    assert(dotted.len() == n + 1);
    assert(dotted.last() == dot());
    same_pieces_name_the_same(all, dotted, n);
    assert(path.push('/').push('.')[0] == path[0]);
}

/// A name behind a slash is one more component of a path.
pub proof fn names_are_components(path: Seq<char>, name: Seq<char>)
    requires
        path.len() > 0,
        name.len() > 0,
        name != seq!['.'],
        forall|i: int| 0 <= i < name.len() ==> #[trigger] name[i] != '/',
    ensures
        components(path.push('/') + name) == components(path).push(name),
{
    reveal(components);
    let all = pieces(path, '/', None);
    let n = all.len();
    ended_pieces(path, '/');
    longer_last_piece(path.push('/'), name, '/');
    let more = pieces(path.push('/') + name, '/', None);
    assert(Seq::<char>::empty() + name =~= name);
    assert(more.len() == n + 1);
    assert(more.last() == name);
    same_pieces_name_the_same(all, more, n);
    assert(named(more, n + 1) == named(more, n).push(name));
    assert((path.push('/') + name)[0] == path[0]);
    assert(components(path.push('/') + name) =~= components(path).push(name));
}

/// A name by itself is the one component of its path, behind the root where it stands behind a
/// slash; the root is the one component of a slash, and nothing has none.
pub proof fn short_paths_have_few_components(name: Seq<char>)
    requires
        forall|i: int| 0 <= i < name.len() ==> #[trigger] name[i] != '/',
    ensures
        name.len() > 0 ==> components(name) == seq![name],
        name.len() > 0 && name != seq!['.'] ==> components(seq!['/'] + name) == seq![
            seq!['/'],
            name,
        ],
        components(seq!['/']) == seq![seq!['/']],
        components(Seq::<char>::empty()).len() == 0,
{
    reveal(components);
    let nothing = Seq::<char>::empty();
    longer_last_piece(nothing, name, '/');
    assert(nothing + name =~= name);
    let all = pieces(name, '/', None);
    assert(pieces(nothing, '/', None) =~= seq![nothing]);
    assert(all =~= seq![name]);
    reveal_with_fuel(named, 3);
    if name.len() > 0 {
        assert(named(all, 1) =~= seq![name]);
    }
    let slash = seq!['/'];
    ended_pieces(nothing, '/');
    assert(nothing.push('/') =~= slash);
    assert(pieces(slash, '/', None) =~= seq![nothing, nothing]);
    assert(components(slash) =~= seq![slash]);
    longer_last_piece(slash, name, '/');
    assert(pieces(slash + name, '/', None) =~= seq![nothing, name]);
    if name.len() > 0 && name != seq!['.'] {
        assert((slash + name)[0] == '/');
        assert(named(pieces(slash + name, '/', None), 2) =~= seq![name]);
        assert(components(slash + name) =~= seq![slash, name]);
    }
}

/// What is joined to a path stands below it, unless it is a path of its own.
pub proof fn joined_paths_stand_below(base: Seq<char>, path: Seq<char>)
    requires
        base.len() > 0,
    ensures
        path.len() > 0 && path[0] == '/' ==> below(base, path) == path,
        path.len() == 0 || path[0] != '/' ==> is_below(
            components(below(base, path)),
            components(base),
        ),
{
    reveal(components);
    if path.len() == 0 || path[0] != '/' {
        let stem = if base.last() == '/' {
            base.drop_last()
        } else {
            base
        };
        let whole = below(base, path);
        assert(whole =~= stem.push('/') + path);
        further_pieces(stem, path, '/');
        let f = pieces(stem, '/', None);
        let g = pieces(whole, '/', None);
        assert forall|i: int| 0 <= i < f.len() implies #[trigger] f[i] == g[i] by {
            assert(g.take(f.len() as int)[i] == g[i]);
        }
        same_pieces_name_the_same(f, g, f.len());
        names_only_grow(g, f.len(), g.len());
        ended_pieces(stem, '/');
        let h = pieces(stem.push('/'), '/', None);
        same_pieces_name_the_same(f, h, f.len());
        assert(base.last() == '/' ==> base =~= stem.push('/'));
        let head = if base[0] == '/' {
            seq![root()]
        } else {
            Seq::empty()
        };
        assert(whole[0] == base[0]);
        assert(components(base) =~= head + named(f, f.len()));
        assert(components(whole) =~= head + named(g, g.len()));
        let (x, y) = (components(whole), components(base));
        let k = named(f, f.len()).len() as int;
        assert(x.take(y.len() as int) =~= head + named(g, g.len()).take(k));
    }
}

proof fn last_component_says(all: Seq<Seq<char>>, n: nat)
    requires
        n <= all.len(),
    ensures
        match last_component(all, n) {
            Some(k) => 0 <= k < n && named(all, n) == named(all, k as nat).push(all[k]) && !is_void(
                all[k],
                k,
            ),
            None => named(all, n).len() == 0,
        },
    decreases n,
{
    if n > 0 && is_void(all[n - 1], n - 1) {
        last_component_says(all, (n - 1) as nat);
    }
}

proof fn pieces_are_whole(s: Seq<char>, i: int, j: int)
    requires
        0 <= i < pieces(s, '/', None).len(),
        0 <= j < pieces(s, '/', None)[i].len(),
    ensures
        pieces(s, '/', None)[i][j] != '/',
    decreases s.len(),
{
    if s.len() > 0 {
        let d = s.drop_last();
        last_piece_ends(d, '/', None);
        let f = pieces(d, '/', None);
        let g = pieces(s, '/', None);
        if i < f.len() - 1 {
            assert(g[i] == f[i]);
            pieces_are_whole(d, i, j);
        } else if s.last() != '/' {
            assert(g[i] == f[i].push(s.last()));
            if j < f[i].len() {
                pieces_are_whole(d, i, j);
            }
        } else if i == f.len() - 1 {
            assert(g[i] == f[i]);
            pieces_are_whole(d, i, j);
        }
    }
}

proof fn joined_pieces_come_apart(list: Seq<Seq<char>>)
    requires
        list.len() > 0,
        forall|i: int, j: int|
            0 <= i < list.len() && 0 <= j < list[i].len() ==> #[trigger] list[i][j] != '/',
    ensures
        pieces(joined(list, seq!['/']), '/', None) == list,
    decreases list.len(),
{
    let nothing = Seq::<char>::empty();
    if list.len() == 1 {
        assert forall|j: int| 0 <= j < list[0].len() implies #[trigger] list[0][j] != '/' by {}
        longer_last_piece(nothing, list[0], '/');
        assert(nothing + list[0] =~= list[0]);
        assert(pieces(nothing, '/', None) =~= seq![nothing]);
        assert(pieces(list[0], '/', None) =~= list);
    } else {
        let d = list.drop_last();
        let last = list.last();
        assert forall|i: int, j: int| 0 <= i < d.len() && 0 <= j < d[i].len() implies #[trigger]
        d[i][j] != '/' by {
            assert(d[i] == list[i]);
            assert(list[i][j] != '/');
        }
        joined_pieces_come_apart(d);
        let s = joined(d, seq!['/']);
        assert(joined(list, seq!['/']) =~= s.push('/') + last);
        ended_pieces(s, '/');
        assert forall|j: int| 0 <= j < last.len() implies #[trigger] last[j] != '/' by {
            assert(list[list.len() - 1][j] != '/');
        }
        longer_last_piece(s.push('/'), last, '/');
        assert(nothing + last =~= last);
        assert(pieces(joined(list, seq!['/']), '/', None) =~= list);
    }
}

proof fn rooted_paths_begin_with_nothing(s: Seq<char>)
    ensures
        ({
            let f = pieces(s, '/', None);
            s.len() > 0 && s[0] == '/' <==> f.len() > 1 && f[0].len() == 0
        }),
    decreases s.len(),
{
    if s.len() > 0 {
        let d = s.drop_last();
        rooted_paths_begin_with_nothing(d);
        last_piece_ends(d, '/', None);
        let f = pieces(d, '/', None);
        let g = pieces(s, '/', None);
        if d.len() > 0 {
            assert(d[0] == s[0]);
            if f.len() == 1 {
                assert(f.drop_last().len() == 0);
                assert(f[0] == f.last());
                assert(tally(d.take(d.len() - f[0].len()), '/') == 0);
                assert(f[0].len() > 0) by {
                    if f[0].len() == 0 {
                        assert(d.take(d.len() as int) =~= d);
                        only_piece(d, '/');
                        assert(f[0] == d);
                    }
                }
            }
        }
    }
}

/// The parent of a path has its components but the last; a path without a component but the root
/// has no parent.
pub proof fn parents_lack_the_last_component(path: Seq<char>)
    ensures
        match parent(path) {
            Some(up) => components(path).len() > 0 && components(up)
                == components(path).drop_last(),
            None => components(path).len() == 0 || components(path) == seq![root()],
        },
{
    reveal(components);
    let all = pieces(path, '/', None);
    let n = all.len();
    last_component_says(all, n);
    last_piece_ends(path, '/', None);
    rooted_paths_begin_with_nothing(path);
    let rooted = path.len() > 0 && path[0] == '/';
    let head = if rooted {
        seq![root()]
    } else {
        Seq::empty()
    };
    assert(components(path) =~= head + named(all, n));
    reveal_strlit("/");
    assert("/"@ =~= seq!['/']);
    match last_component(all, n) {
        None => {
            if rooted {
                assert(components(path) =~= seq![root()]);
            }
        },
        Some(k) => {
            last_component_says(all, k as nat);
            match last_component(all, k as nat) {
                Some(m) => {
                    let kept = all.take(m + 1);
                    assert forall|i: int, j: int|
                        0 <= i < kept.len() && 0 <= j < kept[i].len() implies #[trigger]
                    kept[i][j] != '/' by {
                        pieces_are_whole(path, i, j);
                    }
                    joined_pieces_come_apart(kept);
                    let up = joined(kept, "/"@);
                    rooted_paths_begin_with_nothing(up);
                    same_pieces_name_the_same(all, kept, (m + 1) as nat);
                    assert(named(all, (m + 1) as nat) == named(all, m as nat).push(all[m]));
                    assert(named(kept, kept.len()) == named(all, k as nat));
                    if rooted {
                        assert(is_void(all[0], 0));
                        assert(m >= 1);
                        assert(kept[0] == all[0]);
                    } else {
                        assert(kept.len() > 1 ==> kept[0] == all[0]);
                    }
                    assert(components(up) =~= head + named(all, k as nat));
                    assert(components(path).drop_last() =~= head + named(all, k as nat));
                },
                None => {
                    short_paths_have_few_components(Seq::<char>::empty());
                    reveal_strlit("");
                    assert(""@ =~= Seq::<char>::empty());
                    assert(named(all, k as nat) =~= Seq::<Seq<char>>::empty());
                    assert(components(path).drop_last() =~= head);
                    assert(components(Seq::<char>::empty()) =~= Seq::<Seq<char>>::empty());
                },
            }
        },
    }
}

// ---------------------------------------------------------------------------------------------
// Write scopes
// ---------------------------------------------------------------------------------------------

/// One component of a path is Git's own.
pub open spec fn passes_git(path: Seq<char>) -> bool {
    exists|i: int| 0 <= i < components(path).len() && #[trigger] components(path)[i] == ".git"@
}

/// A path has every component of another, in order, before its own.
pub open spec fn lies_in(path: Seq<char>, base: Seq<char>) -> bool {
    components(base).len() <= components(path).len() && forall|i: int|
        0 <= i < components(base).len() ==> #[trigger] components(base)[i] == components(path)[i]
}

proof fn paths_below_lie_in(path: Seq<char>, base: Seq<char>)
    ensures
        is_below(components(path), components(base)) == lies_in(path, base),
{
    let (x, y) = (components(path), components(base));
    if y.len() <= x.len() {
        let t = x.take(y.len() as int);
        if lies_in(path, base) {
            assert(t =~= y);
        }
        if t == y {
            assert forall|i: int| 0 <= i < y.len() implies #[trigger] y[i] == x[i] by {
                assert(t[i] == x[i]);
            }
        }
    }
}

/// A write scope is accepted exactly where none of its components is Git's own, the place that it
/// stands for is found, lies in the worktree and in no repository of its own; and only a subtree
/// that is a directory has to be looked through.
pub proof fn scopes_stay_in_their_worktree(base: Seq<char>, scope: WriteScopeV1, facts: ScopeFacts)
    ensures
        ({
            let path = match scope {
                WriteScopeV1::ExactFile { path } => path@,
                WriteScopeV1::Subtree { path } => path@,
            };
            let verdict = scope_verdict(base, scope, facts);
            let inside = facts.resolved is Ok && lies_in(facts.resolved->Ok_0@, base);
            &&& verdict is Ok == (!passes_git(path) && inside && !facts.nested)
            &&& verdict is Ok ==> verdict->Ok_0 == (scope is Subtree && facts.directory)
        }),
{
    if facts.resolved is Ok {
        paths_below_lie_in(facts.resolved->Ok_0@, base);
    }
}

/// While a subtree is looked through, a repository of its own below the worktree's root and a link
/// out of the worktree are refused, and so is everything behind the hundred thousandth entry;
/// directories are looked into, and everything else is passed over.
pub proof fn subtrees_stay_in_their_worktree(
    base: Seq<char>,
    directory: Seq<char>,
    visited: usize,
    name: Seq<char>,
    kind: EntryKind,
)
    ensures
        ({
            let verdict = entry_verdict(base, directory, visited, name, kind);
            let few = visited < 100_000;
            let nested = name == ".git"@;
            &&& !few ==> verdict is Err
            &&& few && nested ==> verdict is Ok == (components(directory) == components(base))
            &&& few && !nested && kind is Directory ==> verdict == Ok::<EntryStep, Refusal>(
                EntryStep::Descend,
            )
            &&& few && !nested && kind is Link ==> verdict is Ok == (kind->target is Ok && lies_in(
                kind->target->Ok_0@,
                base,
            ))
            &&& verdict is Ok && (nested || !(kind is Directory)) ==> verdict->Ok_0
                == EntryStep::Pass
            &&& few && !nested && kind is Other ==> verdict is Ok
        }),
{
    if kind is Link && kind->target is Ok {
        paths_below_lie_in(kind->target->Ok_0@, base);
    }
}

// ---------------------------------------------------------------------------------------------
// Releases and mappings
// ---------------------------------------------------------------------------------------------

/// Three numbers between dots are a release, which suffices exactly where it is not older: the
/// first number that differs decides.
pub proof fn releases_are_compared_by_number(
    a: (u64, u64, u64),
    b: (u64, u64, u64),
)
    ensures
        ({
            let x = decimal(a.0 as nat) + seq!['.'] + decimal(a.1 as nat) + seq!['.'] + decimal(
                a.2 as nat,
            );
            let y = decimal(b.0 as nat) + seq!['.'] + decimal(b.1 as nat) + seq!['.'] + decimal(
                b.2 as nat,
            );
            &&& release(x) == Some(a)
            &&& at_least(x, y) == (a.0 > b.0 || (a.0 == b.0 && a.1 > b.1) || (a.0 == b.0 && a.1
                == b.1 && a.2 >= b.2))
        }),
{
    written_releases_are_read_back(a);
    written_releases_are_read_back(b);
}

proof fn written_releases_are_read_back(a: (u64, u64, u64))
    ensures
        release(
            decimal(a.0 as nat) + seq!['.'] + decimal(a.1 as nat) + seq!['.'] + decimal(
                a.2 as nat,
            ),
        ) == Some(a),
{
    let (p, q, r) = (decimal(a.0 as nat), decimal(a.1 as nat), decimal(a.2 as nat));
    digits_are_read(a.0 as nat);
    digits_are_read(a.1 as nat);
    digits_are_read(a.2 as nat);
    written_numbers_are_read_back(a.0);
    written_numbers_are_read_back(a.1);
    written_numbers_are_read_back(a.2);
    let nothing = Seq::<char>::empty();
    longer_last_piece(nothing, p, '.');
    assert(nothing + p =~= p);
    assert(pieces(nothing, '.', None) =~= seq![nothing]);
    assert(pieces(p, '.', None) =~= seq![p]);
    ended_pieces(p, '.');
    longer_last_piece(p.push('.'), q, '.');
    assert(nothing + q =~= q);
    assert(pieces(p.push('.') + q, '.', None) =~= seq![p, q]);
    let s = p.push('.') + q;
    ended_pieces(s, '.');
    longer_last_piece(s.push('.'), r, '.');
    assert(nothing + r =~= r);
    assert(pieces(s.push('.') + r, '.', None) =~= seq![p, q, r]);
    assert(s.push('.') + r =~= p + seq!['.'] + q + seq!['.'] + r);
}

pub(crate) proof fn two_pieces(first: Seq<char>, rest: Seq<char>)
    requires
        forall|i: int| 0 <= i < first.len() ==> #[trigger] first[i] != '=',
    ensures
        pieces(first, '=', Some(2nat)) == seq![first],
        pieces(first.push('=') + rest, '=', Some(2nat)) == seq![first, rest],
    decreases first.len() + rest.len(),
{
    let nothing = Seq::<char>::empty();
    if rest.len() == 0 {
        if first.len() > 0 {
            let d = first.drop_last();
            assert forall|i: int| 0 <= i < d.len() implies #[trigger] d[i] != '=' by {
                assert(d[i] == first[i]);
            }
            two_pieces(d, rest);
            assert(first.last() == first[first.len() - 1]);
            assert(d.push(first.last()) =~= first);
            assert(pieces(first, '=', Some(2nat)) =~= seq![first]);
        } else {
            assert(first =~= nothing);
            assert(pieces(first, '=', Some(2nat)) =~= seq![first]);
        }
        assert(first.push('=') + rest =~= first.push('='));
        assert(first.push('=').drop_last() =~= first);
        assert(rest =~= nothing);
        assert(pieces(first.push('='), '=', Some(2nat)) =~= seq![first, rest]);
    } else {
        let d = rest.drop_last();
        two_pieces(first, d);
        let s = first.push('=') + rest;
        assert(s.drop_last() =~= first.push('=') + d);
        assert(s.last() == rest.last());
        assert(d.push(rest.last()) =~= rest);
        assert(pieces(s, '=', Some(2nat)) =~= seq![first, rest]);
    }
}

/// A mapping names a Worker before the first equals sign and a profile behind it, whatever the
/// profile is called; without one it names nothing.
pub proof fn mappings_name_worker_and_profile(worker: Seq<char>, profile: Seq<char>)
    requires
        forall|i: int| 0 <= i < worker.len() ==> #[trigger] worker[i] != '=',
    ensures
        mapping(worker + seq!['='] + profile) == Some((worker, profile)),
        mapping(worker) is None,
{
    two_pieces(worker, profile);
    assert(worker.push('=') + profile =~= worker + seq!['='] + profile);
}

/// A terminal is found in the one pane that shows it; none and more than one are told apart.
pub proof fn terminals_are_shown_once(panes: Seq<PaneInfo>, terminal: Seq<char>, i: int, j: int)
    ensures
        ({
            let answer = resolved(panes, terminal);
            let at = 0 <= i < panes.len() && panes[i].terminal_id@ == terminal;
            &&& at && (forall|k: int|
                0 <= k < panes.len() && k != i ==> (#[trigger] panes[k]).terminal_id@ != terminal)
                ==> answer is Ok && answer->Ok_0.pane_id == panes[i].pane_id@
                && answer->Ok_0.terminal_id == terminal && answer->Ok_0.workspace_id
                == panes[i].workspace_id@ && answer->Ok_0.tab_id == panes[i].tab_id@
            &&& at && i < j < panes.len() && panes[j].terminal_id@ == terminal ==> answer == Err::<
                Location,
                HerdrFault,
            >(HerdrFault::DuplicateTerminal(terminal))
            &&& (forall|k: int|
                0 <= k < panes.len() ==> (#[trigger] panes[k]).terminal_id@ != terminal)
                ==> answer == Err::<Location, HerdrFault>(
                HerdrFault::TerminalMissing(terminal),
            )
        }),
{
    let p = shows_terminal(terminal);
    let at = 0 <= i < panes.len() && panes[i].terminal_id@ == terminal;
    if at && (forall|k: int|
        0 <= k < panes.len() && k != i ==> (#[trigger] panes[k]).terminal_id@ != terminal) {
        first_found(panes, p, i);
        shown_rows_count(panes, p, i);
    }
    if at && i < j < panes.len() && panes[j].terminal_id@ == terminal {
        first_says(panes, p);
        assert(p(panes[i]) && p(panes[j]));
        two_rows_count(panes, p, i, j);
    }
    if forall|k: int| 0 <= k < panes.len() ==> (#[trigger] panes[k]).terminal_id@ != terminal {
        first_missing(panes, p);
    }
}

proof fn no_rows_count(s: Seq<PaneInfo>, p: spec_fn(PaneInfo) -> bool)
    requires
        forall|k: int| 0 <= k < s.len() ==> !p(#[trigger] s[k]),
    ensures
        count_where(s, p) == 0,
    decreases s.len(),
{
    if s.len() > 0 {
        assert(!p(s[s.len() - 1]));
        no_rows_count(s.drop_last(), p);
    }
}

proof fn shown_rows_count(s: Seq<PaneInfo>, p: spec_fn(PaneInfo) -> bool, i: int)
    requires
        0 <= i < s.len(),
        p(s[i]),
        forall|k: int| 0 <= k < s.len() && k != i ==> !p(#[trigger] s[k]),
    ensures
        count_where(s, p) == 1,
    decreases s.len(),
{
    let t = s.drop_last();
    if i == s.len() - 1 {
        no_rows_count(t, p);
    } else {
        assert(t[i] == s[i]);
        shown_rows_count(t, p, i);
        assert(!p(s[s.len() - 1]));
    }
}

proof fn two_rows_count(s: Seq<PaneInfo>, p: spec_fn(PaneInfo) -> bool, i: int, j: int)
    requires
        0 <= i < j < s.len(),
        p(s[i]),
        p(s[j]),
    ensures
        count_where(s, p) >= 2,
    decreases s.len(),
{
    let t = s.drop_last();
    if j == s.len() - 1 {
        one_row_counts(t, p, i);
    } else {
        assert(t[i] == s[i] && t[j] == s[j]);
        two_rows_count(t, p, i, j);
    }
}

proof fn one_row_counts(s: Seq<PaneInfo>, p: spec_fn(PaneInfo) -> bool, i: int)
    requires
        0 <= i < s.len(),
        p(s[i]),
    ensures
        count_where(s, p) >= 1,
    decreases s.len(),
{
    if i < s.len() - 1 {
        assert(s.drop_last()[i] == s[i]);
        one_row_counts(s.drop_last(), p, i);
    }
}

} // verus!

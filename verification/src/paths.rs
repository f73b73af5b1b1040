//! Slash-separated paths: their components and their order.
use vstd::prelude::*;

use crate::text::{chars_of, join_words, joined, text_of, texts};

verus! {

// ---------------------------------------------------------------------------------------------
// Splitting
// ---------------------------------------------------------------------------------------------

/// Whether another piece may begin after `n` of them.
pub open spec fn within(n: nat, limit: Option<nat>) -> bool {
    match limit {
        Some(most) => n < most,
        None => true,
    }
}

/// The pieces between separators, at most `limit` of them: the last piece keeps what is left.
pub open spec fn pieces<A>(s: Seq<A>, separator: A, limit: Option<nat>) -> Seq<Seq<A>>
    decreases s.len(),
{
    if s.len() == 0 {
        seq![Seq::<A>::empty()]
    } else {
        let before = pieces(s.drop_last(), separator, limit);
        if s.last() == separator && within(before.len(), limit) {
            before.push(Seq::<A>::empty())
        } else {
            before.drop_last().push(before.last().push(s.last()))
        }
    }
}

/// View of a list of lists.
pub open spec fn lists_view<A>(v: Seq<Vec<A>>) -> Seq<Seq<A>> {
    Seq::new(v.len(), |i: int| v[i]@)
}

pub open spec fn limit_view(limit: Option<usize>) -> Option<nat> {
    match limit {
        Some(n) => Some(n as nat),
        None => None,
    }
}

/// Splits characters at a separator.
pub fn split_chars(s: &Vec<char>, separator: char, limit: Option<usize>) -> (r: Vec<Vec<char>>)
    ensures
        lists_view(r@) == pieces(s@, separator, limit_view(limit)),
        r.len() >= 1,
{
    let ghost most = limit_view(limit);
    let mut r: Vec<Vec<char>> = Vec::new();
    let mut current: Vec<char> = Vec::new();
    let mut i: usize = 0;
    assert(lists_view(r@).push(current@) =~= pieces(s@.take(0), separator, most));
    while i < s.len()
        invariant
            i <= s.len(),
            most == limit_view(limit),
            r.len() <= i,
            lists_view(r@).push(current@) == pieces(s@.take(i as int), separator, most),
        decreases s.len() - i,
    {
        let ghost before = pieces(s@.take(i as int), separator, most);
        assert(s@.take(i + 1).drop_last() =~= s@.take(i as int));
        assert(before.drop_last() =~= lists_view(r@));
        assert(before.last() == current@);
        let c = s[i];
        let open = match limit {
            Some(n) => r.len() + 1 < n,
            None => true,
        };
        if c == separator && open {
            let ghost done = lists_view(r@);
            r.push(current);
            assert(lists_view(r@) =~= done.push(before.last()));
            assert(lists_view(r@) =~= before);
            current = Vec::new();
            assert(lists_view(r@).push(current@) =~= before.push(Seq::<char>::empty()));
        } else {
            current.push(c);
        }
        i += 1;
    }
    assert(s@.take(i as int) =~= s@);
    let ghost done = lists_view(r@);
    let ghost tail = current@;
    r.push(current);
    assert(lists_view(r@) =~= done.push(tail));
    r
}

/// Splits bytes at a separator.
pub fn split_bytes(s: &[u8], separator: u8) -> (r: Vec<Vec<u8>>)
    ensures
        lists_view(r@) == pieces(s@, separator, None),
        r.len() >= 1,
{
    let mut r: Vec<Vec<u8>> = Vec::new();
    let mut current: Vec<u8> = Vec::new();
    let mut i: usize = 0;
    assert(lists_view(r@).push(current@) =~= pieces(s@.take(0), separator, None));
    while i < s.len()
        invariant
            i <= s.len(),
            r.len() <= i,
            lists_view(r@).push(current@) == pieces(s@.take(i as int), separator, None),
        decreases s.len() - i,
    {
        let ghost before = pieces(s@.take(i as int), separator, None);
        assert(s@.take(i + 1).drop_last() =~= s@.take(i as int));
        assert(before.drop_last() =~= lists_view(r@));
        assert(before.last() == current@);
        let b = s[i];
        if b == separator {
            let ghost done = lists_view(r@);
            r.push(current);
            assert(lists_view(r@) =~= done.push(before.last()));
            assert(lists_view(r@) =~= before);
            current = Vec::new();
            assert(lists_view(r@).push(current@) =~= before.push(Seq::<u8>::empty()));
        } else {
            current.push(b);
        }
        i += 1;
    }
    assert(s@.take(i as int) =~= s@);
    let ghost done = lists_view(r@);
    let ghost tail = current@;
    r.push(current);
    assert(lists_view(r@) =~= done.push(tail));
    r
}

// ---------------------------------------------------------------------------------------------
// Components
// ---------------------------------------------------------------------------------------------

pub open spec fn dot() -> Seq<char> {
    seq!['.']
}

pub open spec fn dots() -> Seq<char> {
    seq!['.', '.']
}

pub open spec fn root() -> Seq<char> {
    seq!['/']
}

/// A piece that is no component: an empty one, and a dot that does not begin the path.
pub open spec fn is_void(piece: Seq<char>, at: int) -> bool {
    piece.len() == 0 || (piece == dot() && at != 0)
}

/// The components among the first `n` pieces.
pub open spec fn named(all: Seq<Seq<char>>, n: nat) -> Seq<Seq<char>>
    decreases n,
{
    if n == 0 {
        Seq::empty()
    } else if is_void(all[n - 1], n - 1) {
        named(all, (n - 1) as nat)
    } else {
        named(all, (n - 1) as nat).push(all[n - 1])
    }
}

/// The components of a path: repeated and trailing slashes do not count, nor do dots except at the
/// beginning.
#[verifier::opaque]
pub open spec fn components(path: Seq<char>) -> Seq<Seq<char>> {
    let all = pieces(path, '/', None);
    if path.len() > 0 && path[0] == '/' {
        seq![root()] + named(all, all.len())
    } else {
        named(all, all.len())
    }
}

fn is_dot(piece: &Vec<char>) -> (r: bool)
    ensures
        r == (piece@ == dot()),
{
    if piece.len() == 1 && piece[0] == '.' {
        assert(piece@ =~= dot());
        true
    } else {
        assert(dot().len() == 1 && dot()[0] == '.');
        false
    }
}

/// The components of a path.
pub fn components_of(path: &str) -> (r: Vec<Vec<char>>)
    ensures
        lists_view(r@) == components(path@),
{
    let chars = chars_of(path);
    let rooted = chars.len() > 0 && chars[0] == '/';
    let split = split_chars(&chars, '/', None);
    let ghost all = pieces(path@, '/', None);
    let mut r: Vec<Vec<char>> = Vec::new();
    if rooted {
        let mut first: Vec<char> = Vec::new();
        first.push('/');
        assert(first@ =~= root());
        r.push(first);
    }
    let ghost head = lists_view(r@);
    assert(head =~= (if rooted {
        seq![root()]
    } else {
        Seq::empty()
    }));
    assert(lists_view(r@) =~= head + named(all, 0));
    let mut i: usize = 0;
    while i < split.len()
        invariant
            i <= split.len(),
            lists_view(split@) == all,
            lists_view(r@) == head + named(all, i as nat),
        decreases split.len() - i,
    {
        let piece = &split[i];
        assert(lists_view(split@)[i as int] == piece@);
        if !(piece.len() == 0 || (is_dot(piece) && i != 0)) {
            let ghost before = lists_view(r@);
            let copy = copy_chars(piece);
            r.push(copy);
            assert(lists_view(r@) =~= before.push(all[i as int]));
            assert(lists_view(r@) =~= head + named(all, (i + 1) as nat));
        }
        i += 1;
    }
    assert(lists_view(r@) =~= components(path@)) by {
        reveal(components);
    }
    r
}

fn copy_chars(s: &Vec<char>) -> (r: Vec<char>)
    ensures
        r@ == s@,
{
    let mut r: Vec<char> = Vec::new();
    let mut i: usize = 0;
    while i < s.len()
        invariant
            i <= s.len(),
            r@ == s@.take(i as int),
        decreases s.len() - i,
    {
        r.push(s[i]);
        i += 1;
    }
    assert(s@.take(i as int) =~= s@);
    r
}

// ---------------------------------------------------------------------------------------------
// Order
// ---------------------------------------------------------------------------------------------

/// How two things compare.
#[derive(Debug, Clone, Copy, PartialEq, Eq, Structural)]
pub enum Rank {
    Before,
    Same,
    After,
}

pub open spec fn number_rank(a: int, b: int) -> Rank {
    if a < b {
        Rank::Before
    } else if a == b {
        Rank::Same
    } else {
        Rank::After
    }
}

/// Texts are ordered by their first different character; a text stands before its continuations.
pub open spec fn text_rank(a: Seq<char>, b: Seq<char>) -> Rank
    decreases a.len(),
{
    if a.len() == 0 || b.len() == 0 {
        number_rank(a.len() as int, b.len() as int)
    } else if a[0] == b[0] {
        text_rank(a.drop_first(), b.drop_first())
    } else {
        number_rank(a[0] as int, b[0] as int)
    }
}

/// The root stands before a dot, a dot before two dots, and those before all names.
pub open spec fn class(component: Seq<char>) -> int {
    if component == root() {
        0
    } else if component == dot() {
        1
    } else if component == dots() {
        2
    } else {
        3
    }
}

pub open spec fn component_rank(a: Seq<char>, b: Seq<char>) -> Rank {
    if class(a) != class(b) {
        number_rank(class(a), class(b))
    } else {
        text_rank(a, b)
    }
}

/// Paths are ordered by their first different component; a path stands before what is below it.
#[verifier::opaque]
pub open spec fn path_rank(a: Seq<Seq<char>>, b: Seq<Seq<char>>) -> Rank
    decreases a.len(),
{
    if a.len() == 0 || b.len() == 0 {
        number_rank(a.len() as int, b.len() as int)
    } else if a[0] == b[0] {
        path_rank(a.drop_first(), b.drop_first())
    } else {
        component_rank(a[0], b[0])
    }
}

proof fn text_rank_says(a: Seq<char>, b: Seq<char>)
    ensures
        text_rank(a, b) == Rank::Same <==> a == b,
        text_rank(a, b) == Rank::Before <==> text_rank(b, a) == Rank::After,
        text_rank(a, b) == Rank::After <==> text_rank(b, a) == Rank::Before,
    decreases a.len(),
{
    if a.len() == 0 && b.len() == 0 {
        assert(a =~= b);
    } else if a.len() > 0 && b.len() > 0 && a[0] == b[0] {
        text_rank_says(a.drop_first(), b.drop_first());
        if a.drop_first() == b.drop_first() {
            assert(a =~= seq![a[0]] + a.drop_first());
            assert(b =~= seq![b[0]] + b.drop_first());
        }
    }
}

proof fn text_rank_passes_on(a: Seq<char>, b: Seq<char>, c: Seq<char>)
    requires
        text_rank(a, b) == Rank::Before,
        text_rank(b, c) == Rank::Before,
    ensures
        text_rank(a, c) == Rank::Before,
    decreases a.len(),
{
    if a.len() > 0 && b.len() > 0 && c.len() > 0 && a[0] == b[0] && b[0] == c[0] {
        text_rank_passes_on(a.drop_first(), b.drop_first(), c.drop_first());
    }
}

proof fn component_rank_says(a: Seq<char>, b: Seq<char>)
    ensures
        component_rank(a, b) == Rank::Same <==> a == b,
        component_rank(a, b) == Rank::Before <==> component_rank(b, a) == Rank::After,
{
    text_rank_says(a, b);
}

proof fn component_rank_passes_on(a: Seq<char>, b: Seq<char>, c: Seq<char>)
    requires
        component_rank(a, b) == Rank::Before,
        component_rank(b, c) == Rank::Before,
    ensures
        component_rank(a, c) == Rank::Before,
{
    if class(a) == class(b) && class(b) == class(c) {
        text_rank_passes_on(a, b, c);
    }
}

/// Paths are the same exactly when they have the same components, and one of two different paths
/// stands before the other.
pub proof fn path_rank_says(a: Seq<Seq<char>>, b: Seq<Seq<char>>)
    ensures
        path_rank(a, b) == Rank::Same <==> a == b,
        path_rank(a, b) == Rank::Before <==> path_rank(b, a) == Rank::After,
        path_rank(a, b) == Rank::After <==> path_rank(b, a) == Rank::Before,
    decreases a.len(),
{
    reveal(path_rank);
    if a.len() == 0 && b.len() == 0 {
        assert(a =~= b);
    } else if a.len() > 0 && b.len() > 0 {
        component_rank_says(a[0], b[0]);
        component_rank_says(b[0], a[0]);
        if a[0] == b[0] {
            path_rank_says(a.drop_first(), b.drop_first());
            if a.drop_first() == b.drop_first() {
                assert(a =~= seq![a[0]] + a.drop_first());
                assert(b =~= seq![b[0]] + b.drop_first());
            }
        }
    }
}

/// The order of paths is transitive.
pub proof fn path_rank_passes_on(a: Seq<Seq<char>>, b: Seq<Seq<char>>, c: Seq<Seq<char>>)
    requires
        path_rank(a, b) == Rank::Before,
        path_rank(b, c) == Rank::Before,
    ensures
        path_rank(a, c) == Rank::Before,
    decreases a.len(),
{
    reveal(path_rank);
    if a.len() > 0 && b.len() > 0 && c.len() > 0 {
        component_rank_says(a[0], b[0]);
        component_rank_says(b[0], c[0]);
        component_rank_says(a[0], c[0]);
        component_rank_says(c[0], a[0]);
        if a[0] == b[0] && b[0] == c[0] {
            path_rank_passes_on(a.drop_first(), b.drop_first(), c.drop_first());
        } else if a[0] != b[0] && b[0] != c[0] {
            component_rank_passes_on(a[0], b[0], c[0]);
        }
    }
}

fn rank_texts(a: &Vec<char>, b: &Vec<char>) -> (r: Rank)
    ensures
        r == text_rank(a@, b@),
{
    let mut i: usize = 0;
    assert(a@.skip(0) =~= a@ && b@.skip(0) =~= b@);
    while i < a.len() && i < b.len()
        invariant
            i <= a.len(),
            i <= b.len(),
            text_rank(a@.skip(i as int), b@.skip(i as int)) == text_rank(a@, b@),
        decreases a.len() - i,
    {
        if a[i] != b[i] {
            return if a[i] < b[i] {
                Rank::Before
            } else {
                Rank::After
            };
        }
        assert(a@.skip(i as int).drop_first() =~= a@.skip(i + 1));
        assert(b@.skip(i as int).drop_first() =~= b@.skip(i + 1));
        i += 1;
    }
    if a.len() < b.len() {
        Rank::Before
    } else if a.len() == b.len() {
        Rank::Same
    } else {
        Rank::After
    }
}

fn class_of(component: &Vec<char>) -> (r: u8)
    ensures
        r == class(component@),
{
    proof {
        assert(root().len() == 1 && root()[0] == '/');
        assert(dot().len() == 1 && dot()[0] == '.');
        assert(dots().len() == 2 && dots()[0] == '.' && dots()[1] == '.');
    }
    if component.len() == 1 && component[0] == '/' {
        assert(component@ =~= root());
        0
    } else if component.len() == 1 && component[0] == '.' {
        assert(component@ =~= dot());
        1
    } else if component.len() == 2 && component[0] == '.' && component[1] == '.' {
        assert(component@ =~= dots());
        2
    } else {
        3
    }
}

fn rank_components(a: &Vec<char>, b: &Vec<char>) -> (r: Rank)
    ensures
        r == component_rank(a@, b@),
{
    let x: u8 = class_of(a);
    let y: u8 = class_of(b);
    if x < y {
        Rank::Before
    } else if x > y {
        Rank::After
    } else {
        rank_texts(a, b)
    }
}

/// Compares two paths by their components.
pub fn rank_paths(a: &Vec<Vec<char>>, b: &Vec<Vec<char>>) -> (r: Rank)
    ensures
        r == path_rank(lists_view(a@), lists_view(b@)),
{
    proof {
        reveal(path_rank);
    }
    let mut i: usize = 0;
    let ghost x = lists_view(a@);
    let ghost y = lists_view(b@);
    assert(x.skip(0) =~= x && y.skip(0) =~= y);
    while i < a.len() && i < b.len()
        invariant
            i <= a.len(),
            i <= b.len(),
            x == lists_view(a@),
            y == lists_view(b@),
            path_rank(x.skip(i as int), y.skip(i as int)) == path_rank(x, y),
        decreases a.len() - i,
    {
        proof {
            reveal(path_rank);
            component_rank_says(x[i as int], y[i as int]);
        }
        let rank = rank_components(&a[i], &b[i]);
        if rank != Rank::Same {
            return rank;
        }
        assert(x.skip(i as int).drop_first() =~= x.skip(i + 1));
        assert(y.skip(i as int).drop_first() =~= y.skip(i + 1));
        i += 1;
    }
    if a.len() < b.len() {
        Rank::Before
    } else if a.len() == b.len() {
        Rank::Same
    } else {
        Rank::After
    }
}

/// Compares the paths that two texts write.
pub fn rank_path_texts(a: &str, b: &str) -> (r: Rank)
    ensures
        r == path_rank(components(a@), components(b@)),
{
    let x = components_of(a);
    let y = components_of(b);
    rank_paths(&x, &y)
}

/// A path that is another one or stands below it.
pub open spec fn is_below(path: Seq<Seq<char>>, base: Seq<Seq<char>>) -> bool {
    base.len() <= path.len() && path.take(base.len() as int) == base
}

/// Whether a path is another one or stands below it.
pub fn path_is_below(path: &str, base: &str) -> (r: bool)
    ensures
        r == is_below(components(path@), components(base@)),
{
    let p = components_of(path);
    let b = components_of(base);
    if b.len() > p.len() {
        return false;
    }
    let ghost x = components(path@);
    let ghost y = components(base@);
    let mut i: usize = 0;
    while i < b.len()
        invariant
            i <= b.len() <= p.len(),
            x == components(path@),
            y == components(base@),
            lists_view(p@) == x,
            lists_view(b@) == y,
            forall|j: int| 0 <= j < i ==> #[trigger] x[j] == y[j],
        decreases b.len() - i,
    {
        proof {
            text_rank_says(x[i as int], y[i as int]);
        }
        if rank_texts(&p[i], &b[i]) != Rank::Same {
            assert(x.take(y.len() as int)[i as int] != y[i as int]);
            return false;
        }
        i += 1;
    }
    assert(x.take(y.len() as int) =~= y);
    true
}

/// Whether two paths are equal: whether they have the same components.
pub fn same_path(a: &str, b: &str) -> (r: bool)
    ensures
        r == (components(a@) == components(b@)),
{
    let x = components_of(a);
    let y = components_of(b);
    if x.len() != y.len() {
        assert(components(a@).len() == x.len() && components(b@).len() == y.len());
        return false;
    }
    let mut i: usize = 0;
    while i < x.len()
        invariant
            i <= x.len(),
            x.len() == y.len(),
            lists_view(x@) == components(a@),
            lists_view(y@) == components(b@),
            forall|j: int| 0 <= j < i ==> #[trigger] components(a@)[j] == components(b@)[j],
        decreases x.len() - i,
    {
        assert(components(a@)[i as int] == x@[i as int]@);
        assert(components(b@)[i as int] == y@[i as int]@);
        if !same_piece(&x[i], &y[i]) {
            return false;
        }
        i += 1;
    }
    assert(components(a@) =~= components(b@));
    true
}

fn same_piece(a: &Vec<char>, b: &Vec<char>) -> (r: bool)
    ensures
        r == (a@ == b@),
{
    if a.len() != b.len() {
        return false;
    }
    let mut i: usize = 0;
    while i < a.len()
        invariant
            i <= a.len(),
            a.len() == b.len(),
            forall|j: int| 0 <= j < i ==> a@[j] == b@[j],
        decreases a.len() - i,
    {
        if a[i] != b[i] {
            return false;
        }
        i += 1;
    }
    assert(a@ =~= b@);
    true
}

/// Texts in order.
pub open spec fn precedes(a: Seq<char>, b: Seq<char>) -> bool {
    text_rank(a, b) == Rank::Before
}

/// Whether a text comes before another.
pub fn comes_before(a: &str, b: &str) -> (r: bool)
    ensures
        r == precedes(a@, b@),
{
    let x = chars_of(a);
    let y = chars_of(b);
    rank_texts(&x, &y) == Rank::Before
}

/// Of two texts that differ one comes first.
pub proof fn one_precedes(a: Seq<char>, b: Seq<char>)
    ensures
        (a == b) <==> !precedes(a, b) && !precedes(b, a),
        !(precedes(a, b) && precedes(b, a)),
{
    text_rank_says(a, b);
}

/// What comes before a text comes before what the text comes before.
pub proof fn precedes_passes_on(a: Seq<char>, b: Seq<char>, c: Seq<char>)
    requires
        precedes(a, b),
        precedes(b, c),
    ensures
        precedes(a, c),
{
    text_rank_passes_on(a, b, c);
}

// ---------------------------------------------------------------------------------------------
// Joining
// ---------------------------------------------------------------------------------------------

/// A path below another: an absolute path stands for itself.
pub open spec fn below(base: Seq<char>, path: Seq<char>) -> Seq<char> {
    if path.len() > 0 && path[0] == '/' {
        path
    } else if base.len() == 0 || base.last() == '/' {
        base + path
    } else {
        base + seq!['/'] + path
    }
}

/// Writes a path below another.
pub fn join_path(base: &str, path: &str) -> (r: String)
    ensures
        r@ == below(base@, path@),
{
    let b = chars_of(base);
    let p = chars_of(path);
    if p.len() > 0 && p[0] == '/' {
        return path.to_owned();
    }
    let mut r = base.to_owned();
    if b.len() > 0 && b[b.len() - 1] != '/' {
        r.push('/');
        assert(r@ =~= base@ + seq!['/']);
    }
    r.append(path);
    r
}

/// The last of the first `n` pieces that is a component.
pub open spec fn last_component(all: Seq<Seq<char>>, n: nat) -> Option<int>
    decreases n,
{
    if n == 0 {
        None
    } else if is_void(all[n - 1], n - 1) {
        last_component(all, (n - 1) as nat)
    } else {
        Some(n - 1)
    }
}

/// The path without its last component; the root and the empty path have no parent.
pub open spec fn parent(path: Seq<char>) -> Option<Seq<char>> {
    let all = pieces(path, '/', None);
    match last_component(all, all.len()) {
        None => None,
        Some(k) => match last_component(all, k as nat) {
            Some(m) => Some(joined(all.take(m + 1), "/"@)),
            None => if path.len() > 0 && path[0] == '/' {
                Some("/"@)
            } else {
                Some(""@)
            },
        },
    }
}

fn find_component(all: &Vec<Vec<char>>, n: usize) -> (r: Option<usize>)
    requires
        n <= all.len(),
    ensures
        match (r, last_component(lists_view(all@), n as nat)) {
            (Some(i), Some(k)) => i == k && i < n,
            (None, None) => true,
            _ => false,
        },
{
    let ghost v = lists_view(all@);
    let mut i: usize = n;
    while i > 0
        invariant
            i <= n <= all.len(),
            v == lists_view(all@),
            last_component(v, n as nat) == last_component(v, i as nat),
        decreases i,
    {
        assert(v[i - 1] == all@[i - 1]@);
        if !(all[i - 1].len() == 0 || (is_dot(&all[i - 1]) && i != 1)) {
            return Some(i - 1);
        }
        i -= 1;
    }
    None
}

/// Finds the parent of a path.
pub fn parent_of(path: &str) -> (r: Option<String>)
    ensures
        match (r, parent(path@)) {
            (Some(found), Some(text)) => found@ == text,
            (None, None) => true,
            _ => false,
        },
{
    let chars = chars_of(path);
    let rooted = chars.len() > 0 && chars[0] == '/';
    let all = split_chars(&chars, '/', None);
    let ghost v = pieces(path@, '/', None);
    assert(lists_view(all@) == v);
    assert(v.len() == all.len());
    let k = match find_component(&all, all.len()) {
        None => {
            return None;
        },
        Some(k) => k,
    };
    match find_component(&all, k) {
        None => if rooted {
            Some("/".to_owned())
        } else {
            Some("".to_owned())
        },
        Some(m) => {
            let mut parts: Vec<String> = Vec::new();
            let mut i: usize = 0;
            while i < m + 1
                invariant
                    i <= m + 1,
                    m < all.len(),
                    parts.len() == i,
                    lists_view(all@) == v,
                    forall|j: int| 0 <= j < i ==> (#[trigger] parts@[j])@ == v[j],
                decreases m + 1 - i,
            {
                assert(v[i as int] == all@[i as int]@);
                parts.push(text_of(all[i].as_slice()));
                i += 1;
            }
            assert(texts(parts@) =~= v.take(m + 1));
            Some(join_words(&parts, "/"))
        },
    }
}

} // verus!

//! Texts kept once and addressed by number.
use vstd::prelude::*;

use crate::text::{same_text, texts};

verus! {

/// Distinct texts; a text's number is its position.
#[derive(Debug)]
pub struct NameTable {
    names: Vec<String>,
}

/// No two positions hold the same text.
pub open spec fn distinct(s: Seq<Seq<char>>) -> bool {
    forall|i: int, j: int| 0 <= i < j < s.len() ==> #[trigger] s[i] != #[trigger] s[j]
}

/// Number of a text.
pub open spec fn number_of(s: Seq<Seq<char>>, name: Seq<char>) -> Option<u64> {
    if exists|i: int| 0 <= i < s.len() && #[trigger] s[i] == name {
        Some((choose|i: int| 0 <= i < s.len() && #[trigger] s[i] == name) as u64)
    } else {
        None
    }
}

/// The text with a number.
pub open spec fn named(s: Seq<Seq<char>>, key: u64) -> Option<Seq<char>> {
    if key < s.len() {
        Some(s[key as int])
    } else {
        None
    }
}

impl View for NameTable {
    type V = Seq<Seq<char>>;

    closed spec fn view(&self) -> Seq<Seq<char>> {
        texts(self.names@)
    }
}

impl NameTable {
    /// The empty table.
    pub fn new() -> (r: NameTable)
        ensures
            r@ == Seq::<Seq<char>>::empty(),
    {
        let r = NameTable { names: Vec::new() };
        assert(r@ =~= Seq::<Seq<char>>::empty());
        r
    }

    /// Number of names.
    pub fn len(&self) -> (r: usize)
        ensures
            r == self@.len(),
    {
        self.names.len()
    }

    /// The number of a text, if the table holds it.
    pub fn find(&self, name: &str) -> (r: Option<u64>)
        requires
            distinct(self@),
        ensures
            r == number_of(self@, name@),
            r is Some ==> r->0 < self@.len() && self@[r->0 as int] == name@,
    {
        let mut i: usize = 0;
        while i < self.names.len()
            invariant
                i <= self.names.len(),
                distinct(self@),
                self@.len() == self.names.len(),
                forall|j: int| 0 <= j < i ==> self@[j] != name@,
            decreases self.names.len() - i,
        {
            if same_text(self.names[i].as_str(), name) {
                assert(self@[i as int] == name@);
                return Some(i as u64);
            }
            assert(self@[i as int] != name@);
            i += 1;
        }
        None
    }

    /// The text with a number.
    pub fn name(&self, key: u64) -> (r: Option<&str>)
        ensures
            match r {
                Some(s) => key < self@.len() && s@ == self@[key as int],
                None => key >= self@.len(),
            },
    {
        if key < self.names.len() as u64 {
            Some(self.names[key as usize].as_str())
        } else {
            None
        }
    }

    /// The number of a text, which is added at the end when the table lacks it.
    pub fn intern(&mut self, name: &str) -> (r: u64)
        requires
            distinct(old(self)@),
        ensures
            distinct(final(self)@),
            final(self)@ == (if number_of(old(self)@, name@) is Some {
                old(self)@
            } else {
                old(self)@.push(name@)
            }),
            number_of(final(self)@, name@) == Some(r),
            r < final(self)@.len(),
            final(self)@[r as int] == name@,
    {
        match self.find(name) {
            Some(key) => key,
            None => {
                let key: u64 = self.names.len() as u64;
                self.names.push(name.to_owned());
                proof {
                    assert(self@ =~= old(self)@.push(name@));
                    assert forall|j: int| 0 <= j < old(self)@.len() implies old(self)@[j]
                        != name@ by {};
                    assert(self@[key as int] == name@);
                    let i = choose|i: int| 0 <= i < self@.len() && #[trigger] self@[i] == name@;
                    assert(i == key as int);
                }
                key
            },
        }
    }
}

} // verus!

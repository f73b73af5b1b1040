//! JSON documents as trees of plain values.
use vstd::prelude::*;

use crate::select::first_where;

verus! {

/// A JSON value. Of a number it is kept which integers it can be read as, and how it is written.
pub enum JsonTree {
    Null,
    Bool(bool),
    Number { signed: Option<i64>, unsigned: Option<u64>, written: Seq<char> },
    Text(Seq<char>),
    Array(Seq<JsonTree>),
    Object(Seq<(Seq<char>, JsonTree)>),
}

#[verifier::external_type_specification]
#[verifier::external_body]
pub struct ExValue(serde_json::Value);

/// What a `serde_json::Value` holds: the members of an object in the order of its map, and each
/// number with the form in which `serde_json::Number` writes it.
pub uninterp spec fn tree(value: serde_json::Value) -> JsonTree;

/// What `serde_json::from_str` reads: the tree of a document, or its own diagnostic.
pub uninterp spec fn json_of(text: Seq<char>) -> Result<JsonTree, Seq<char>>;

/// What `serde_json::Value` writes: the compact form of a tree.
pub uninterp spec fn json_form(tree: JsonTree) -> Seq<char>;

/// `serde_json::from_str`: the same text always gives the same tree or the same diagnostic.
#[verifier::external_body]
pub(crate) fn parse_json(text: &str) -> (r: Result<serde_json::Value, String>)
    ensures
        match r {
            Ok(value) => json_of(text@) == Ok::<JsonTree, Seq<char>>(tree(value)),
            Err(message) => json_of(text@) == Err::<JsonTree, Seq<char>>(message@),
        },
{
    serde_json::from_str(text).map_err(|error| error.to_string())
}

/// What `serde_json::from_slice` reads: the tree of a document, or its own diagnostic.
pub uninterp spec fn json_in(bytes: Seq<u8>) -> Result<JsonTree, Seq<char>>;

/// `serde_json::from_slice`: the same bytes always give the same tree or the same diagnostic.
#[verifier::external_body]
pub(crate) fn parse_bytes(bytes: &[u8]) -> (r: Result<serde_json::Value, String>)
    ensures
        match r {
            Ok(value) => json_in(bytes@) == Ok::<JsonTree, Seq<char>>(tree(value)),
            Err(message) => json_in(bytes@) == Err::<JsonTree, Seq<char>>(message@),
        },
{
    serde_json::from_slice(bytes).map_err(|error| error.to_string())
}

/// `serde_json::Value::to_string`: the compact form of the tree, in which each number stands as it
/// is written.
#[verifier::external_body]
pub(crate) fn render(value: &serde_json::Value) -> (r: String)
    ensures
        r@ == json_form(tree(*value)),
{
    value.to_string()
}

/// `serde_json::Value::clone`: a value with the same tree.
#[verifier::external_body]
pub(crate) fn copy_value(value: &serde_json::Value) -> (r: serde_json::Value)
    ensures
        tree(r) == tree(*value),
{
    value.clone()
}

/// The `serde_json::Value` that is null.
#[verifier::external_body]
pub(crate) fn null_value() -> (r: serde_json::Value)
    ensures
        tree(r) == JsonTree::Null,
{
    serde_json::Value::Null
}

pub open spec fn is_member(name: Seq<char>) -> spec_fn((Seq<char>, JsonTree)) -> bool {
    |m: (Seq<char>, JsonTree)| m.0 == name
}

/// The member of an object.
pub open spec fn member(t: JsonTree, name: Seq<char>) -> Option<JsonTree> {
    match t {
        JsonTree::Object(members) => match first_where(members, is_member(name)) {
            Some(i) => Some(members[i].1),
            None => None,
        },
        _ => None,
    }
}

/// `serde_json::Value::get` with a text: the member of an object, nothing of other values.
#[verifier::external_body]
pub(crate) fn get_member<'a>(value: &'a serde_json::Value, name: &str) -> (r: Option<
    &'a serde_json::Value,
>)
    ensures
        match r {
            Some(found) => member(tree(*value), name@) == Some(tree(*found)),
            None => member(tree(*value), name@) is None,
        },
{
    value.get(name)
}

/// The parts of an array or an object.
pub open spec fn parts(t: JsonTree) -> Seq<JsonTree> {
    match t {
        JsonTree::Array(items) => items,
        JsonTree::Object(members) => Seq::new(members.len(), |i: int| members[i].1),
        _ => Seq::empty(),
    }
}

/// `serde_json::Value::as_array` and `as_object`: the number of parts of a value.
#[verifier::external_body]
pub(crate) fn count_parts(value: &serde_json::Value) -> (r: usize)
    ensures
        r == parts(tree(*value)).len(),
{
    match value {
        serde_json::Value::Array(items) => items.len(),
        serde_json::Value::Object(map) => map.len(),
        _ => 0,
    }
}

/// `serde_json::Value::get` with a number: the element of an array, nothing of other values.
#[verifier::external_body]
pub(crate) fn get_element<'a>(value: &'a serde_json::Value, i: usize) -> (r: Option<
    &'a serde_json::Value,
>)
    ensures
        match r {
            Some(found) => tree(*value) is Array && i < parts(tree(*value)).len() && parts(
                tree(*value),
            )[i as int] == tree(*found),
            None => !(tree(*value) is Array) || i >= parts(tree(*value)).len(),
        },
{
    value.get(i)
}

/// `serde_json::Map::values` of an object: its member with a number in the map's order.
#[verifier::external_body]
pub(crate) fn get_value<'a>(value: &'a serde_json::Value, i: usize) -> (r: Option<
    &'a serde_json::Value,
>)
    ensures
        match r {
            Some(found) => tree(*value) is Object && i < parts(tree(*value)).len() && parts(
                tree(*value),
            )[i as int] == tree(*found),
            None => !(tree(*value) is Object) || i >= parts(tree(*value)).len(),
        },
{
    value.as_object().and_then(|map| map.values().nth(i))
}

/// `serde_json::Value::is_object`.
#[verifier::external_body]
pub(crate) fn is_object(value: &serde_json::Value) -> (r: bool)
    ensures
        r == tree(*value) is Object,
{
    value.is_object()
}

/// `serde_json::Value::is_array`.
#[verifier::external_body]
pub(crate) fn is_array(value: &serde_json::Value) -> (r: bool)
    ensures
        r == tree(*value) is Array,
{
    value.is_array()
}

pub open spec fn text_in(t: JsonTree) -> Option<Seq<char>> {
    match t {
        JsonTree::Text(s) => Some(s),
        _ => None,
    }
}

/// `serde_json::Value::as_str`.
#[verifier::external_body]
pub(crate) fn get_text(value: &serde_json::Value) -> (r: Option<String>)
    ensures
        match r {
            Some(s) => text_in(tree(*value)) == Some(s@),
            None => text_in(tree(*value)) is None,
        },
{
    value.as_str().map(|text| text.to_owned())
}

pub open spec fn signed_in(t: JsonTree) -> Option<i64> {
    match t {
        JsonTree::Number { signed, .. } => signed,
        _ => None,
    }
}

/// `serde_json::Value::as_i64`.
#[verifier::external_body]
pub(crate) fn get_signed(value: &serde_json::Value) -> (r: Option<i64>)
    ensures
        r == signed_in(tree(*value)),
{
    value.as_i64()
}

/// `serde_json::Value::is_number`.
#[verifier::external_body]
pub(crate) fn is_number(value: &serde_json::Value) -> (r: bool)
    ensures
        r == tree(*value) is Number,
{
    value.is_number()
}

pub open spec fn unsigned_in(t: JsonTree) -> Option<u64> {
    match t {
        JsonTree::Number { unsigned, .. } => unsigned,
        _ => None,
    }
}

/// `serde_json::Value::as_u64`.
#[verifier::external_body]
pub(crate) fn get_unsigned(value: &serde_json::Value) -> (r: Option<u64>)
    ensures
        r == unsigned_in(tree(*value)),
{
    value.as_u64()
}

pub open spec fn bool_in(t: JsonTree) -> Option<bool> {
    match t {
        JsonTree::Bool(b) => Some(b),
        _ => None,
    }
}

/// `serde_json::Value::as_bool`.
#[verifier::external_body]
pub(crate) fn get_bool(value: &serde_json::Value) -> (r: Option<bool>)
    ensures
        r == bool_in(tree(*value)),
{
    value.as_bool()
}

// ---------------------------------------------------------------------------------------------
// Readings
// ---------------------------------------------------------------------------------------------

/// A textual member.
pub open spec fn text_member(t: JsonTree, name: Seq<char>) -> Option<Seq<char>> {
    match member(t, name) {
        Some(found) => text_in(found),
        None => None,
    }
}

/// View of an optional text.
pub open spec fn shown(text: Option<String>) -> Option<Seq<char>> {
    match text {
        Some(s) => Some(s@),
        None => None,
    }
}

/// Reads a textual member.
pub fn field(value: &serde_json::Value, name: &str) -> (r: Option<String>)
    ensures
        shown(r) == text_member(tree(*value), name@),
{
    match get_member(value, name) {
        Some(found) => get_text(found),
        None => None,
    }
}

/// A member that is a natural number of 32 bits.
pub open spec fn number_member(t: JsonTree, name: Seq<char>) -> Option<u32> {
    match member(t, name) {
        Some(found) => match unsigned_in(found) {
            Some(n) => if n <= u32::MAX {
                Some(n as u32)
            } else {
                None
            },
            None => None,
        },
        None => None,
    }
}

/// Reads a member that is a natural number of 32 bits.
pub fn number(value: &serde_json::Value, name: &str) -> (r: Option<u32>)
    ensures
        r == number_member(tree(*value), name@),
{
    match get_member(value, name) {
        Some(found) => match get_unsigned(found) {
            Some(n) => if n <= 0xffff_ffff {
                Some(n as u32)
            } else {
                None
            },
            None => None,
        },
        None => None,
    }
}

/// A member that is a natural number of 64 bits.
pub open spec fn unsigned_member(t: JsonTree, name: Seq<char>) -> Option<u64> {
    match member(t, name) {
        Some(found) => unsigned_in(found),
        None => None,
    }
}

/// Reads a member that is a natural number of 64 bits.
pub fn unsigned(value: &serde_json::Value, name: &str) -> (r: Option<u64>)
    ensures
        r == unsigned_member(tree(*value), name@),
{
    match get_member(value, name) {
        Some(found) => get_unsigned(found),
        None => None,
    }
}

/// A member that is true.
pub open spec fn true_member(t: JsonTree, name: Seq<char>) -> bool {
    match member(t, name) {
        Some(found) => bool_in(found) == Some(true),
        None => false,
    }
}

/// Reads whether a member is true.
pub fn boolean(value: &serde_json::Value, name: &str) -> (r: bool)
    ensures
        r == true_member(tree(*value), name@),
{
    match get_member(value, name) {
        Some(found) => match get_bool(found) {
            Some(b) => b,
            None => false,
        },
        None => false,
    }
}

/// The first text under one of the usual names, in a value itself.
pub open spec fn own_text(t: JsonTree) -> Option<Seq<char>> {
    match text_member(t, "text"@) {
        Some(s) => Some(s),
        None => match text_member(t, "message"@) {
            Some(s) => Some(s),
            None => text_member(t, "delta"@),
        },
    }
}

/// The first text under one of the usual names, in a value or below it.
pub open spec fn text_within(t: JsonTree) -> Option<Seq<char>>
    decreases t, 0nat,
{
    match own_text(t) {
        Some(s) => Some(s),
        None => match t {
            JsonTree::Array(items) => text_among(items, 0),
            JsonTree::Object(members) => text_among_members(members, 0),
            _ => None,
        },
    }
}

/// The first text in one of the elements from the `i`th on.
pub open spec fn text_among(items: Seq<JsonTree>, i: nat) -> Option<Seq<char>>
    decreases items, items.len() - i,
{
    if i >= items.len() {
        None
    } else {
        match text_within(items[i as int]) {
            Some(s) => Some(s),
            None => text_among(items, i + 1),
        }
    }
}

/// The first text in one of the members from the `i`th on.
pub open spec fn text_among_members(members: Seq<(Seq<char>, JsonTree)>, i: nat) -> Option<Seq<char>>
    decreases members, members.len() - i,
{
    if i >= members.len() {
        None
    } else {
        match text_within(members[i as int].1) {
            Some(s) => Some(s),
            None => text_among_members(members, i + 1),
        }
    }
}

/// Finds the first text under one of the usual names, in a value or below it.
pub fn find_text(value: &serde_json::Value) -> (r: Option<String>)
    ensures
        shown(r) == text_within(tree(*value)),
    decreases tree(*value),
{
    if let Some(s) = field(value, "text") {
        return Some(s);
    }
    if let Some(s) = field(value, "message") {
        return Some(s);
    }
    if let Some(s) = field(value, "delta") {
        return Some(s);
    }
    let ghost t = tree(*value);
    let listed = is_array(value);
    if !listed && !is_object(value) {
        return None;
    }
    let n = count_parts(value);
    let mut i: usize = 0;
    proof {
        if listed {
            assert(text_within(t) == text_among(t->Array_0, 0));
        } else {
            assert(text_within(t) == text_among_members(t->Object_0, 0));
        }
    }
    while i < n
        invariant
            t == tree(*value),
            n == parts(t).len(),
            i <= n,
            listed == t is Array,
            !listed ==> t is Object,
            listed ==> text_within(t) == text_among(t->Array_0, i as nat),
            !listed ==> text_within(t) == text_among_members(t->Object_0, i as nat),
        decreases n - i,
    {
        let found = if listed {
            get_element(value, i)
        } else {
            get_value(value, i)
        };
        if let Some(item) = found {
            assert(decreases_to!(t => tree(*item))) by {
                if listed {
                    assert(t->Array_0[i as int] == tree(*item));
                } else {
                    assert(t->Object_0[i as int].1 == tree(*item));
                }
            }
            if let Some(s) = find_text(item) {
                return Some(s);
            }
        }
        i += 1;
    }
    None
}

} // verus!

//! JSON text, read with `serde_json`.
use vstd::prelude::*;

verus! {

#[verifier::external_type_specification]
#[verifier::external_body]
pub struct ExValue(serde_json::Value);

#[verifier::external_type_specification]
#[verifier::external_body]
pub struct ExError(serde_json::Error);

/// What a JSON value is made of. A number is known where it is an integer.
pub enum Tree {
    Null,
    Bool(bool),
    Number(Option<int>),
    Text(Seq<char>),
    List(Seq<Tree>),
    Object(Map<Seq<char>, Tree>),
}

/// What a `serde_json::Value` holds.
pub uninterp spec fn tree(v: serde_json::Value) -> Tree;

/// What `serde_json::from_slice` reads from bytes, where they are JSON.
pub uninterp spec fn read_bytes(bytes: Seq<u8>) -> Option<Tree>;

/// `serde_json::from_slice` for a `Value`: what it reads is a function of the bytes.
#[verifier::external_body]
pub(crate) fn from_slice(bytes: &[u8]) -> (r: Result<serde_json::Value, serde_json::Error>)
    ensures
        match r {
            Ok(v) => read_bytes(bytes@) == Some(tree(v)),
            Err(_) => read_bytes(bytes@) is None,
        },
{
    serde_json::from_slice(bytes)
}

/// What `serde_json::from_str` reads from a text, where it is JSON.
pub uninterp spec fn read_text(s: Seq<char>) -> Option<Tree>;

/// `serde_json::from_str` for a `Value`: what it reads is a function of the text.
#[verifier::external_body]
pub(crate) fn from_str(s: &str) -> (r: Result<serde_json::Value, serde_json::Error>)
    ensures
        match r {
            Ok(v) => read_text(s@) == Some(tree(v)),
            Err(_) => read_text(s@) is None,
        },
{
    serde_json::from_str(s)
}

/// The member of an object under `key`; nothing of any other value.
pub open spec fn member(t: Tree, key: Seq<char>) -> Option<Tree> {
    match t {
        Tree::Object(m) => if m.dom().contains(key) {
            Some(m[key])
        } else {
            None
        },
        _ => None,
    }
}

/// `serde_json::Value::get` with a text: the member of an object under that key.
#[verifier::external_body]
pub(crate) fn get<'a>(v: &'a serde_json::Value, key: &str) -> (r: Option<&'a serde_json::Value>)
    ensures
        match r {
            Some(m) => member(tree(*v), key@) == Some(tree(*m)),
            None => member(tree(*v), key@) is None,
        },
{
    v.get(key)
}

/// The text of a JSON text; nothing of any other value.
pub open spec fn text_in(t: Tree) -> Option<Seq<char>> {
    match t {
        Tree::Text(s) => Some(s),
        _ => None,
    }
}

/// `serde_json::Value::as_str`: the text of a JSON text.
#[verifier::external_body]
pub(crate) fn as_str(v: &serde_json::Value) -> (r: Option<&str>)
    ensures
        match r {
            Some(s) => text_in(tree(*v)) == Some(s@),
            None => text_in(tree(*v)) is None,
        },
{
    v.as_str()
}

/// The number of a JSON integer that lies between `low` and `high`.
pub open spec fn number_in(t: Tree, low: int, high: int) -> Option<int> {
    match t {
        Tree::Number(Some(n)) => if low <= n <= high {
            Some(n)
        } else {
            None
        },
        _ => None,
    }
}

/// `serde_json::Value::as_u64`: a JSON integer that fits `u64`.
#[verifier::external_body]
pub(crate) fn as_u64(v: &serde_json::Value) -> (r: Option<u64>)
    ensures
        match r {
            Some(n) => number_in(tree(*v), 0, u64::MAX as int) == Some(n as int),
            None => number_in(tree(*v), 0, u64::MAX as int) is None,
        },
{
    v.as_u64()
}

/// `serde_json::Value::as_i64`: a JSON integer that fits `i64`.
#[verifier::external_body]
pub(crate) fn as_i64(v: &serde_json::Value) -> (r: Option<i64>)
    ensures
        match r {
            Some(n) => number_in(tree(*v), i64::MIN as int, i64::MAX as int) == Some(n as int),
            None => number_in(tree(*v), i64::MIN as int, i64::MAX as int) is None,
        },
{
    v.as_i64()
}

/// The items of a JSON array; nothing of any other value.
pub open spec fn list_in(t: Tree) -> Option<Seq<Tree>> {
    match t {
        Tree::List(s) => Some(s),
        _ => None,
    }
}

/// `serde_json::Value::as_array`: the items of a JSON array.
#[verifier::external_body]
pub(crate) fn as_array(v: &serde_json::Value) -> (r: Option<&Vec<serde_json::Value>>)
    ensures
        match r {
            Some(s) => list_in(tree(*v)) == Some(trees(s@)),
            None => list_in(tree(*v)) is None,
        },
{
    v.as_array()
}

/// What `Value`s hold.
pub open spec fn trees(s: Seq<serde_json::Value>) -> Seq<Tree> {
    Seq::new(s.len(), |i: int| tree(s[i]))
}

/// `serde_json::Value::clone`: the copy holds what the value holds.
#[verifier::external_body]
pub(crate) fn copy(v: &serde_json::Value) -> (r: serde_json::Value)
    ensures
        tree(r) == tree(*v),
{
    v.clone()
}

/// What stands in `t` under a row of keys, each of which leads to a member of the one before.
pub open spec fn at(t: Tree, path: Seq<Seq<char>>) -> Option<Tree>
    decreases path.len(),
{
    if path.len() == 0 {
        Some(t)
    } else {
        match member(t, path[0]) {
            Some(m) => at(m, path.drop_first()),
            None => None,
        }
    }
}

/// A row of keys leads from member to member: the first part of it to a value, and the rest on from
/// there; nothing is found where a part leads nowhere, and no key leads out of the value itself.
pub proof fn law_keys_lead_from_member_to_member(t: Tree, a: Seq<Seq<char>>, b: Seq<Seq<char>>)
    ensures
        at(t, a + b) == match at(t, a) {
            Some(m) => at(m, b),
            None => None,
        },
        a.len() == 1 ==> at(t, a) == member(t, a[0]),
        at(t, Seq::<Seq<char>>::empty()) == Some(t),
    decreases a.len(),
{
    reveal_with_fuel(at, 3);
    if a.len() == 0 {
        assert(a + b =~= b);
    } else {
        let r = a.drop_first();
        assert((a + b).drop_first() =~= r + b);
        assert((a + b)[0] == a[0]);
        match member(t, a[0]) {
            Some(m) => law_keys_lead_from_member_to_member(m, r, b),
            None => {},
        }
        if a.len() == 1 {
            assert(r =~= Seq::<Seq<char>>::empty());
        }
    }
}

/// Only an object has members, only a text is a text, only an array has items, and only a number
/// within the bounds is a number.
pub proof fn law_values_are_what_they_are(t: Tree, key: Seq<char>, low: int, high: int)
    ensures
        member(t, key) is Some <==> (t matches Tree::Object(m) && m.dom().contains(key)),
        text_in(t) is Some <==> t is Text,
        list_in(t) is Some <==> t is List,
        t matches Tree::Text(s) ==> text_in(t) == Some(s),
        t matches Tree::List(s) ==> list_in(t) == Some(s),
        number_in(t, low, high) matches Some(n) ==> low <= n <= high && t == Tree::Number(Some(n)),
        t matches Tree::Number(Some(n)) ==> (low <= n <= high ==> number_in(t, low, high) == Some(
            n,
        )),
{
}

} // verus!

//! A plain-value JSON document model and the lookups the recognizers make
//! on it (`Value::get`, dotted-path lookup, `Value::as_str`, ...).
//!
//! Parsing and printing JSON text is done by the caller; this model holds
//! exactly what the recognizers read. Object members keep their order.
use vstd::prelude::*;

use crate::text::{chars_eq, split_on, str_chars};

verus! {

/// A JSON value.
pub enum JsonValue {
    Null,
    Bool(bool),
    /// A number, kept in its textual form.
    Number(String),
    Str(String),
    Array(Vec<JsonValue>),
    /// Members in document order; keys are unique.
    Object(Vec<(String, JsonValue)>),
}

/// Position of the first member named `key`.
pub open spec fn member_index(members: Seq<(String, JsonValue)>, key: Seq<char>) -> Option<int>
    decreases members.len(),
{
    if members.len() == 0 {
        None
    } else {
        match member_index(members.drop_last(), key) {
            Some(i) => Some(i),
            None => if members.last().0@ == key {
                Some(members.len() - 1)
            } else {
                None
            },
        }
    }
}

pub proof fn lemma_member_index(members: Seq<(String, JsonValue)>, key: Seq<char>)
    ensures
        match member_index(members, key) {
            Some(i) => 0 <= i < members.len() && members[i].0@ == key
                && forall|j: int| 0 <= j < i ==> members[j].0@ != key,
            None => forall|j: int| 0 <= j < members.len() ==> members[j].0@ != key,
        },
    decreases members.len(),
{
    if members.len() > 0 {
        lemma_member_index(members.drop_last(), key);
        assert forall|j: int| 0 <= j < members.len() - 1 implies members.drop_last()[j] == members[j] by {}
    }
}

pub proof fn lemma_member_index_at(members: Seq<(String, JsonValue)>, key: Seq<char>, i: int)
    requires
        0 <= i < members.len(),
        members[i].0@ == key,
        forall|j: int| 0 <= j < i ==> members[j].0@ != key,
    ensures
        member_index(members, key) == Some(i),
{
    lemma_member_index(members, key);
}

/// The value of the first member named `key`.
pub open spec fn member_get(members: Seq<(String, JsonValue)>, key: Seq<char>) -> Option<JsonValue> {
    match member_index(members, key) {
        Some(i) => Some(members[i].1),
        None => None,
    }
}

/// `Value::get(key)` on an object; `None` on every other value.
pub open spec fn jget(v: JsonValue, key: Seq<char>) -> Option<JsonValue> {
    match v {
        JsonValue::Object(members) => member_get(members@, key),
        _ => None,
    }
}

/// `Value::as_str`.
pub open spec fn jstr(v: Option<JsonValue>) -> Option<Seq<char>> {
    match v {
        Some(JsonValue::Str(s)) => Some(s@),
        _ => None,
    }
}

/// `Value::as_array`.
pub open spec fn jarray(v: Option<JsonValue>) -> Option<Seq<JsonValue>> {
    match v {
        Some(JsonValue::Array(items)) => Some(items@),
        _ => None,
    }
}

/// `Value::as_object`.
pub open spec fn jobject(v: Option<JsonValue>) -> Option<Seq<(String, JsonValue)>> {
    match v {
        Some(JsonValue::Object(members)) => Some(members@),
        _ => None,
    }
}

/// Successive `get`s along `segs` (`try_fold` over the segments).
pub open spec fn get_segs(v: JsonValue, segs: Seq<Seq<char>>) -> Option<JsonValue>
    decreases segs.len(),
{
    if segs.len() == 0 {
        Some(v)
    } else {
        match jget(v, segs[0]) {
            Some(x) => get_segs(x, segs.drop_first()),
            None => None,
        }
    }
}

/// The value at a dot-separated path (`"spec.template.spec"`).
pub open spec fn get_path_spec(v: JsonValue, path: Seq<char>) -> Option<JsonValue> {
    get_segs(v, split_on(path, '.'))
}

/// `get_path_spec` on an optional value.
pub open spec fn opt_get(v: Option<JsonValue>, key: Seq<char>) -> Option<JsonValue> {
    match v {
        Some(x) => jget(x, key),
        None => None,
    }
}

/// The value of the first member named `key` (`Map::get`).
pub fn get_member<'a>(members: &'a Vec<(String, JsonValue)>, key: &[char]) -> (r: Option<&'a JsonValue>)
    ensures
        match r {
            Some(x) => member_get(members@, key@) == Some(*x),
            None => member_get(members@, key@) is None,
        },
{
    let mut i: usize = 0;
    while i < members.len()
        invariant
            i <= members@.len(),
            forall|j: int| 0 <= j < i ==> members@[j].0@ != key@,
        decreases members@.len() - i,
    {
        let k = str_chars(members[i].0.as_str());
        if chars_eq(k.as_slice(), key) {
            proof {
                lemma_member_index_at(members@, key@, i as int);
            }
            return Some(&members[i].1);
        }
        i = i + 1;
    }
    proof {
        lemma_member_index(members@, key@);
    }
    None
}

/// `Value::get(key)`.
pub fn get<'a>(v: &'a JsonValue, key: &[char]) -> (r: Option<&'a JsonValue>)
    ensures
        match r {
            Some(x) => jget(*v, key@) == Some(*x),
            None => jget(*v, key@) is None,
        },
{
    match v {
        JsonValue::Object(members) => get_member(members, key),
        _ => None,
    }
}

/// `Value::get(key)` with the key given as a string slice.
pub fn get_str_key<'a>(v: &'a JsonValue, key: &str) -> (r: Option<&'a JsonValue>)
    ensures
        match r {
            Some(x) => jget(*v, key@) == Some(*x),
            None => jget(*v, key@) is None,
        },
{
    let k = str_chars(key);
    get(v, k.as_slice())
}

/// `s` split at every `c` (`str::split`).
pub fn split_chars(v: &[char], c: char) -> (r: Vec<Vec<char>>)
    ensures
        r@.map_values(|l: Vec<char>| l@) == split_on(v@, c),
{
    let mut pieces: Vec<Vec<char>> = Vec::new();
    pieces.push(Vec::new());
    let mut i: usize = 0;
    while i < v.len()
        invariant
            i <= v@.len(),
            pieces@.len() >= 1,
            pieces@.map_values(|l: Vec<char>| l@) == split_on(v@.take(i as int), c),
        decreases v@.len() - i,
    {
        let d = v[i];
        let ghost prev = pieces@.map_values(|l: Vec<char>| l@);
        assert(v@.take(i + 1).drop_last() =~= v@.take(i as int));
        if d == c {
            pieces.push(Vec::new());
            assert(pieces@.map_values(|l: Vec<char>| l@) =~= prev.push(Seq::<char>::empty()));
        } else {
            let mut cur = pieces.pop().unwrap();
            cur.push(d);
            pieces.push(cur);
            assert(pieces@.map_values(|l: Vec<char>| l@) =~= prev.update(prev.len() - 1, prev.last().push(d)));
        }
        i = i + 1;
    }
    assert(v@.take(v@.len() as int) =~= v@);
    pieces
}

/// The value at a dot-separated path.
pub fn get_path<'a>(v: &'a JsonValue, path: &str) -> (r: Option<&'a JsonValue>)
    ensures
        match r {
            Some(x) => get_path_spec(*v, path@) == Some(*x),
            None => get_path_spec(*v, path@) is None,
        },
{
    let p = str_chars(path);
    let segs = split_chars(p.as_slice(), '.');
    let ghost sv = segs@.map_values(|l: Vec<char>| l@);
    let mut cur: &JsonValue = v;
    let mut i: usize = 0;
    assert(sv.skip(0) =~= sv);
    while i < segs.len()
        invariant
            i <= segs@.len(),
            sv == segs@.map_values(|l: Vec<char>| l@),
            sv == split_on(path@, '.'),
            get_segs(*v, sv) == get_segs(*cur, sv.skip(i as int)),
        decreases segs@.len() - i,
    {
        assert(sv.skip(i as int).drop_first() =~= sv.skip(i + 1));
        assert(sv.skip(i as int)[0] == segs@[i as int]@);
        match get(cur, segs[i].as_slice()) {
            Some(x) => {
                cur = x;
            },
            None => {
                return None;
            },
        }
        i = i + 1;
    }
    assert(sv.skip(segs@.len() as int) =~= Seq::<Seq<char>>::empty());
    Some(cur)
}

/// `Value::as_str`.
pub fn as_str(v: Option<&JsonValue>) -> (r: Option<&str>)
    ensures
        match r {
            Some(s) => v is Some && jstr(Some(*v->0)) == Some(s@),
            None => v is None || jstr(Some(*v->0)) is None,
        },
{
    match v {
        Some(JsonValue::Str(s)) => Some(s.as_str()),
        _ => None,
    }
}

// ---------------------------------------------------------------------
// The mathematical view of a value, for values built by the library
// ---------------------------------------------------------------------

/// A JSON value as mathematics: strings and numbers as character sequences.
pub enum JsonView {
    Null,
    Bool(bool),
    Num(Seq<char>),
    Str(Seq<char>),
    Arr(Seq<JsonView>),
    Obj(Seq<(Seq<char>, JsonView)>),
}

/// `v` holds exactly the value `j`, members and elements in order.
pub open spec fn json_is(v: JsonValue, j: JsonView) -> bool
    decreases j,
{
    match j {
        JsonView::Null => v is Null,
        JsonView::Bool(b) => v matches JsonValue::Bool(x) && x == b,
        JsonView::Num(n) => v matches JsonValue::Number(x) && x@ == n,
        JsonView::Str(t) => v matches JsonValue::Str(x) && x@ == t,
        JsonView::Arr(js) => v matches JsonValue::Array(items) && items@.len() == js.len()
            && forall|i: int| 0 <= i < js.len() ==> json_is(#[trigger] items@[i], js[i]),
        JsonView::Obj(jm) => v matches JsonValue::Object(ms) && ms@.len() == jm.len()
            && forall|i: int| 0 <= i < jm.len() ==> (#[trigger] ms@[i]).0@ == jm[i].0 && json_is(ms@[i].1, jm[i].1),
    }
}

/// A JSON string holding `s`.
pub fn json_str(s: &str) -> (r: JsonValue)
    ensures
        json_is(r, JsonView::Str(s@)),
{
    let mut t = String::new();
    t.append(s);
    JsonValue::Str(t)
}

/// A JSON array of strings.
pub fn json_str_array(items: &[&str]) -> (r: JsonValue)
    ensures
        json_is(r, JsonView::Arr(items@.map_values(|s: &str| JsonView::Str(s@)))),
{
    let ghost js = items@.map_values(|s: &str| JsonView::Str(s@));
    let mut out: Vec<JsonValue> = Vec::new();
    let mut i: usize = 0;
    while i < items.len()
        invariant
            i <= items@.len(),
            js == items@.map_values(|s: &str| JsonView::Str(s@)),
            out@.len() == i,
            forall|k: int| 0 <= k < i ==> json_is(#[trigger] out@[k], js[k]),
        decreases items@.len() - i,
    {
        out.push(json_str(items[i]));
        i = i + 1;
    }
    let r = JsonValue::Array(out);
    assert(json_is(r, JsonView::Arr(js)));
    r
}

/// An object member named `key`.
pub fn json_member(key: &str, v: JsonValue, Ghost(j): Ghost<JsonView>) -> (r: (String, JsonValue))
    requires
        json_is(v, j),
    ensures
        r.0@ == key@,
        json_is(r.1, j),
{
    let mut k = String::new();
    k.append(key);
    (k, v)
}

/// `a` and `b` are the same JSON value (strings and numbers compared by
/// their characters).
pub open spec fn json_eqv(a: JsonValue, b: JsonValue) -> bool
    decreases a,
{
    match (a, b) {
        (JsonValue::Null, JsonValue::Null) => true,
        (JsonValue::Bool(x), JsonValue::Bool(y)) => x == y,
        (JsonValue::Number(x), JsonValue::Number(y)) => x@ == y@,
        (JsonValue::Str(x), JsonValue::Str(y)) => x@ == y@,
        (JsonValue::Array(xs), JsonValue::Array(ys)) => xs@.len() == ys@.len()
            && forall|i: int| 0 <= i < xs@.len() ==> json_eqv(#[trigger] xs@[i], ys@[i]),
        (JsonValue::Object(xs), JsonValue::Object(ys)) => xs@.len() == ys@.len()
            && forall|i: int| 0 <= i < xs@.len() ==> (#[trigger] xs@[i]).0@ == ys@[i].0@ && json_eqv(xs@[i].1, ys@[i].1),
        _ => false,
    }
}

/// A copy of a JSON value.
pub fn copy_json(v: &JsonValue) -> (r: JsonValue)
    ensures
        json_eqv(r, *v),
    decreases v,
{
    match v {
        JsonValue::Null => JsonValue::Null,
        JsonValue::Bool(b) => JsonValue::Bool(*b),
        JsonValue::Number(n) => JsonValue::Number(n.clone()),
        JsonValue::Str(s) => JsonValue::Str(s.clone()),
        JsonValue::Array(items) => JsonValue::Array(copy_items(items)),
        JsonValue::Object(members) => {
            let out = copy_members(members);
            JsonValue::Object(out)
        },
    }
}

/// A copy of an array's elements, in order.
pub fn copy_items(items: &Vec<JsonValue>) -> (r: Vec<JsonValue>)
    ensures
        r@.len() == items@.len(),
        forall|k: int| 0 <= k < items@.len() ==> json_eqv(#[trigger] r@[k], items@[k]),
    decreases items,
{
    let mut out: Vec<JsonValue> = Vec::new();
    let mut i: usize = 0;
    while i < items.len()
        invariant
            i <= items@.len(),
            out@.len() == i,
            forall|k: int| 0 <= k < i ==> json_eqv(#[trigger] out@[k], items@[k]),
        decreases items@.len() - i,
    {
        out.push(copy_json(&items[i]));
        i = i + 1;
    }
    out
}

/// A copy of an object's members, in order.
pub fn copy_members(members: &Vec<(String, JsonValue)>) -> (r: Vec<(String, JsonValue)>)
    ensures
        r@.len() == members@.len(),
        forall|k: int| 0 <= k < members@.len() ==> (#[trigger] r@[k]).0@ == members@[k].0@ && json_eqv(r@[k].1, members@[k].1),
    decreases members,
{
    let mut out: Vec<(String, JsonValue)> = Vec::new();
    let mut i: usize = 0;
    while i < members.len()
        invariant
            i <= members@.len(),
            out@.len() == i,
            forall|k: int| 0 <= k < i ==> (#[trigger] out@[k]).0@ == members@[k].0@ && json_eqv(out@[k].1, members@[k].1),
        decreases members@.len() - i,
    {
        let (k, v) = &members[i];
        out.push((k.clone(), copy_json(v)));
        i = i + 1;
    }
    out
}

} // verus!

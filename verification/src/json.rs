//! A JSON value held as plain data, so that the library can read and rewrite
//! what a model or an index file sends.

use vstd::prelude::*;

verus! {

/// A JSON value. A number is kept as its JSON text; an object keeps its
/// members in order.
#[derive(Debug)]
pub enum Json {
    Null,
    Bool(bool),
    Number(String),
    Str(String),
    Array(Vec<Json>),
    Object(Vec<(String, Json)>),
}

/// Whether no member of `ms` before position `i` has the key `key`.
pub open spec fn key_absent_before(ms: Seq<(String, Json)>, key: Seq<char>, i: int) -> bool {
    forall|j: int| 0 <= j < i ==> (#[trigger] ms[j]).0@ != key
}

/// The value of the first member of `ms` whose key is `key`.
pub open spec fn first_member(ms: Seq<(String, Json)>, key: Seq<char>) -> Option<Json>
    decreases ms.len(),
{
    if ms.len() == 0 {
        None
    } else if ms[0].0@ == key {
        Some(ms[0].1)
    } else {
        first_member(ms.drop_first(), key)
    }
}

/// The value of the member `key` of `j`, when `j` is an object that has one.
pub open spec fn member(j: Json, key: Seq<char>) -> Option<Json> {
    match j {
        Json::Object(ms) => first_member(ms@, key),
        _ => None,
    }
}

/// The text of `j`, when `j` is a JSON string.
pub open spec fn text_of(j: Option<Json>) -> Option<Seq<char>> {
    match j {
        Some(Json::Str(s)) => Some(s@),
        _ => None,
    }
}

proof fn lemma_first_member_skip(ms: Seq<(String, Json)>, key: Seq<char>, i: int)
    requires
        0 <= i <= ms.len(),
        key_absent_before(ms, key, i),
    ensures
        first_member(ms, key) == first_member(ms.skip(i), key),
    decreases i,
{
    if i > 0 {
        assert(ms[0].0@ != key);
        let t = ms.drop_first();
        assert forall|j: int| 0 <= j < i - 1 implies (#[trigger] t[j]).0@ != key by {
            assert(t[j] == ms[j + 1]);
        }
        lemma_first_member_skip(t, key, i - 1);
        assert(t.skip(i - 1) =~= ms.skip(i));
    } else {
        assert(ms.skip(0) =~= ms);
    }
}

impl Json {
    /// The value of the first member named `key`, when `self` is an object
    /// that has one (`serde_json::Value::get`).
    pub fn get(&self, key: &str) -> (r: Option<&Json>)
        ensures
            r matches Some(v) ==> member(*self, key@) == Some(*v),
            r is None ==> member(*self, key@) is None,
    {
        match self {
            Json::Object(ms) => {
                let mut i: usize = 0;
                while i < ms.len()
                    invariant
                        i <= ms@.len(),
                        *self == Json::Object(*ms),
                        key_absent_before(ms@, key@, i as int),
                    decreases ms.len() - i,
                {
                    if crate::text::eq_text(ms[i].0.as_str(), key) {
                        proof {
                            lemma_first_member_skip(ms@, key@, i as int);
                        }
                        return Some(&ms[i].1);
                    }
                    i = i + 1;
                }
                proof {
                    lemma_first_member_skip(ms@, key@, i as int);
                }
                None
            },
            _ => None,
        }
    }

    /// The text of a JSON string (`serde_json::Value::as_str`).
    pub fn as_str(&self) -> (r: Option<&str>)
        ensures
            r matches Some(s) ==> self matches Json::Str(t) && t@ == s@,
            r is None ==> !(self is Str),
    {
        match self {
            Json::Str(s) => Some(s.as_str()),
            _ => None,
        }
    }
}

} // verus!

verus! {

/// A JSON value as mathematical data: strings as character sequences.
pub enum JsonView {
    Null,
    Bool(bool),
    Number(Seq<char>),
    Str(Seq<char>),
    Array(Seq<JsonView>),
    Object(Seq<(Seq<char>, JsonView)>),
}

/// The mathematical value of a JSON value.
pub open spec fn json_view(j: Json) -> JsonView
    decreases j, 1nat,
{
    match j {
        Json::Null => JsonView::Null,
        Json::Bool(b) => JsonView::Bool(b),
        Json::Number(n) => JsonView::Number(n@),
        Json::Str(s) => JsonView::Str(s@),
        Json::Array(items) => {
            proof {
                assert(decreases_to!(items => items@));
            }
            JsonView::Array(items_view(items@))
        },
        Json::Object(ms) => {
            proof {
                assert(decreases_to!(ms => ms@));
            }
            JsonView::Object(members_view(ms@))
        },
    }
}

/// The mathematical values of a sequence of JSON values.
pub open spec fn items_view(s: Seq<Json>) -> Seq<JsonView>
    decreases s, 0nat,
{
    if s.len() == 0 {
        seq![]
    } else {
        proof {
            assert(decreases_to!(s => s[s.len() - 1]));
            assert(decreases_to!(s => s.subrange(0, s.len() - 1)));
        }
        items_view(s.subrange(0, s.len() - 1)).push(json_view(s[s.len() - 1]))
    }
}

/// The mathematical values of a sequence of object members.
pub open spec fn members_view(s: Seq<(String, Json)>) -> Seq<(Seq<char>, JsonView)>
    decreases s, 0nat,
{
    if s.len() == 0 {
        seq![]
    } else {
        proof {
            assert(decreases_to!(s => s[s.len() - 1]));
            assert(decreases_to!(s[s.len() - 1] => s[s.len() - 1].1));
            assert(decreases_to!(s => s.subrange(0, s.len() - 1)));
        }
        members_view(s.subrange(0, s.len() - 1)).push(
            (s[s.len() - 1].0@, json_view(s[s.len() - 1].1)),
        )
    }
}

} // verus!

verus! {

/// A JSON string holding `s`.
pub fn json_str(s: &str) -> (r: Json)
    ensures
        json_view(r) == JsonView::Str(s@),
{
    Json::Str(s.to_string())
}

/// A JSON number written as `text`.
pub fn json_number(text: &str) -> (r: Json)
    ensures
        json_view(r) == JsonView::Number(text@),
{
    Json::Number(text.to_string())
}

/// Appends `v` to the items of an array under construction.
pub fn push_item(items: &mut Vec<Json>, v: Json)
    ensures
        items_view(final(items)@) == items_view(old(items)@).push(json_view(v)),
{
    let ghost before = items@;
    items.push(v);
    assert(items@.subrange(0, items@.len() - 1) =~= before);
}

/// Appends the member `key: v` to the members of an object under construction.
pub fn push_member(ms: &mut Vec<(String, Json)>, key: &str, v: Json)
    ensures
        members_view(final(ms)@) == members_view(old(ms)@).push((key@, json_view(v))),
{
    let ghost before = ms@;
    ms.push((key.to_string(), v));
    assert(ms@.subrange(0, ms@.len() - 1) =~= before);
}

} // verus!

verus! {

/// A JSON array of `items`.
pub fn json_array(items: Vec<Json>) -> (r: Json)
    ensures
        json_view(r) == JsonView::Array(items_view(items@)),
{
    Json::Array(items)
}

/// A JSON object of the members `ms`.
pub fn json_object(ms: Vec<(String, Json)>) -> (r: Json)
    ensures
        json_view(r) == JsonView::Object(members_view(ms@)),
{
    Json::Object(ms)
}

/// A JSON boolean.
pub fn json_bool(b: bool) -> (r: Json)
    ensures
        json_view(r) == JsonView::Bool(b),
{
    Json::Bool(b)
}

} // verus!

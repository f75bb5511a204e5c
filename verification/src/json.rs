//! A JSON document tree held as plain values, with its mathematical model.

use vstd::prelude::*;

verus! {

/// A JSON value. Numbers are kept as their JSON text, since nothing in this
/// library computes with them; an object is a list of members in document order.
#[derive(Debug)]
pub enum Json {
    Null,
    Bool(bool),
    Number(String),
    String(String),
    Array(Vec<Json>),
    Object(Vec<(String, Json)>),
}

/// The mathematical model of a [`Json`] value.
pub enum JsonValue {
    Null,
    Bool(bool),
    Number(Seq<char>),
    Str(Seq<char>),
    Array(Seq<JsonValue>),
    Object(Seq<(Seq<char>, JsonValue)>),
}

pub open spec fn json_view(j: Json) -> JsonValue
    decreases j, 0int,
{
    match j {
        Json::Null => JsonValue::Null,
        Json::Bool(b) => JsonValue::Bool(b),
        Json::Number(n) => JsonValue::Number(n@),
        Json::String(s) => JsonValue::Str(s@),
        Json::Array(v) => JsonValue::Array(items_view(v@)),
        Json::Object(m) => JsonValue::Object(members_view(m@)),
    }
}

pub open spec fn items_view(s: Seq<Json>) -> Seq<JsonValue>
    decreases s, 1int,
{
    if s.len() == 0 {
        Seq::empty()
    } else {
        items_view(s.drop_last()).push(json_view(s.last()))
    }
}

pub open spec fn members_view(s: Seq<(String, Json)>) -> Seq<(Seq<char>, JsonValue)>
    decreases s, 1int,
{
    if s.len() == 0 {
        Seq::empty()
    } else {
        members_view(s.drop_last()).push((s.last().0@, json_view(s.last().1)))
    }
}

/// The model of a list of values is the list of their models.
pub proof fn lemma_items_view(s: Seq<Json>)
    ensures
        items_view(s).len() == s.len(),
        forall|i: int| 0 <= i < s.len() ==> #[trigger] items_view(s)[i] == json_view(s[i]),
    decreases s.len(),
{
    if s.len() > 0 {
        lemma_items_view(s.drop_last());
    }
}

/// The model of a list of members is the list of their models.
pub proof fn lemma_members_view(s: Seq<(String, Json)>)
    ensures
        members_view(s).len() == s.len(),
        forall|i: int|
            0 <= i < s.len() ==> #[trigger] members_view(s)[i] == (s[i].0@, json_view(s[i].1)),
    decreases s.len(),
{
    if s.len() > 0 {
        lemma_members_view(s.drop_last());
    }
}

/// Appending a value appends its model.
pub proof fn lemma_items_push(s: Seq<Json>, x: Json)
    ensures
        items_view(s.push(x)) == items_view(s).push(json_view(x)),
{
    assert(s.push(x).drop_last() == s);
}

impl View for Json {
    type V = JsonValue;

    open spec fn view(&self) -> JsonValue {
        json_view(*self)
    }
}

impl Json {
    /// A copy of this value.
    pub fn duplicate(&self) -> (r: Json)
        ensures
            r@ == self@,
        decreases self,
    {
        match self {
            Json::Null => Json::Null,
            Json::Bool(b) => Json::Bool(*b),
            Json::Number(n) => Json::Number(n.clone()),
            Json::String(s) => Json::String(s.clone()),
            Json::Array(v) => Json::Array(duplicate_items(v)),
            Json::Object(m) => Json::Object(duplicate_members(m)),
        }
    }
}

fn duplicate_items(v: &Vec<Json>) -> (r: Vec<Json>)
    ensures
        items_view(r@) == items_view(v@),
    decreases v,
{
    let mut r: Vec<Json> = Vec::new();
    let mut i: usize = 0;
    while i < v.len()
        invariant
            i <= v.len(),
            items_view(r@) == items_view(v@.take(i as int)),
        decreases v.len() - i,
    {
        let ghost before = r@;
        let e = v[i].duplicate();
        r.push(e);
        assert(v@.take(i + 1).drop_last() == v@.take(i as int));
        assert(r@.drop_last() == before);
        i = i + 1;
    }
    assert(v@.take(v.len() as int) == v@);
    r
}

fn duplicate_members(m: &Vec<(String, Json)>) -> (r: Vec<(String, Json)>)
    ensures
        members_view(r@) == members_view(m@),
    decreases m,
{
    let mut r: Vec<(String, Json)> = Vec::new();
    let mut i: usize = 0;
    while i < m.len()
        invariant
            i <= m.len(),
            members_view(r@) == members_view(m@.take(i as int)),
        decreases m.len() - i,
    {
        let k = m[i].0.clone();
        let e = m[i].1.duplicate();
        let ghost before = r@;
        r.push((k, e));
        assert(m@.take(i + 1).drop_last() == m@.take(i as int));
        assert(r@.drop_last() == before);
        i = i + 1;
    }
    assert(m@.take(m.len() as int) == m@);
    r
}

} // verus!

//! The syntax tree that the lexer hands over: a JSON document.
//!
//! `Value` is the executable tree; `Json` is its mathematical model, the
//! view through which every contract of the interpreter reads a tree.

use vstd::prelude::*;

use crate::text::text_eq;

verus! {

/// A JSON value as produced by the lexer. Numbers keep their textual form.
#[derive(Debug)]
pub enum Value {
    Null,
    Bool(bool),
    Number(String),
    String(String),
    Array(Vec<Value>),
    Object(Vec<(String, Value)>),
}

/// The model of a [`Value`]: strings become character sequences.
pub enum Json {
    Null,
    Bool(bool),
    Number(Seq<char>),
    Str(Seq<char>),
    Array(Seq<Json>),
    Object(Seq<(Seq<char>, Json)>),
}

pub open spec fn value_view(v: Value) -> Json
    decreases v,
{
    match v {
        Value::Null => Json::Null,
        Value::Bool(b) => Json::Bool(b),
        Value::Number(s) => Json::Number(s@),
        Value::String(s) => Json::Str(s@),
        Value::Array(a) => Json::Array(values_view(a@)),
        Value::Object(m) => Json::Object(entries_view(m@)),
    }
}

pub open spec fn values_view(s: Seq<Value>) -> Seq<Json>
    decreases s,
{
    if s.len() == 0 {
        Seq::empty()
    } else {
        seq![value_view(s[0])] + values_view(s.drop_first())
    }
}

pub open spec fn entries_view(s: Seq<(String, Value)>) -> Seq<(Seq<char>, Json)>
    decreases s,
{
    if s.len() == 0 {
        Seq::empty()
    } else {
        seq![(s[0].0@, value_view(s[0].1))] + entries_view(s.drop_first())
    }
}

impl View for Value {
    type V = Json;

    open spec fn view(&self) -> Json {
        value_view(*self)
    }
}

/// The model of a vector of values, element by element.
pub proof fn lemma_values_view(s: Seq<Value>)
    ensures
        values_view(s).len() == s.len(),
        forall|i: int| 0 <= i < s.len() ==> #[trigger] values_view(s)[i] == value_view(s[i]),
    decreases s.len(),
{
    if s.len() > 0 {
        lemma_values_view(s.drop_first());
        assert forall|i: int| 0 <= i < s.len() implies #[trigger] values_view(s)[i] == value_view(
            s[i],
        ) by {
            if i > 0 {
                assert(s.drop_first()[i - 1] == s[i]);
            }
        }
    }
}

/// The model of the entries of an object, entry by entry.
pub proof fn lemma_entries_view(s: Seq<(String, Value)>)
    ensures
        entries_view(s).len() == s.len(),
        forall|i: int|
            0 <= i < s.len() ==> #[trigger] entries_view(s)[i] == (s[i].0@, value_view(s[i].1)),
    decreases s.len(),
{
    if s.len() > 0 {
        lemma_entries_view(s.drop_first());
        assert forall|i: int| 0 <= i < s.len() implies #[trigger] entries_view(s)[i] == (
            s[i].0@,
            value_view(s[i].1),
        ) by {
            if i > 0 {
                assert(s.drop_first()[i - 1] == s[i]);
            }
        }
    }
}

/// The value under the first entry of `m` whose key is `k`.
pub open spec fn lookup(m: Seq<(Seq<char>, Json)>, k: Seq<char>) -> Option<Json>
    decreases m.len(),
{
    if m.len() == 0 {
        None
    } else if m[0].0 == k {
        Some(m[0].1)
    } else {
        lookup(m.drop_first(), k)
    }
}

/// The index of the first entry of `m` whose key is `k`, or `m.len()`.
pub open spec fn lookup_index(m: Seq<(Seq<char>, Json)>, k: Seq<char>) -> int
    decreases m.len(),
{
    if m.len() == 0 {
        0
    } else if m[0].0 == k {
        0
    } else {
        1 + lookup_index(m.drop_first(), k)
    }
}

pub proof fn lemma_lookup_index(m: Seq<(Seq<char>, Json)>, k: Seq<char>)
    ensures
        0 <= lookup_index(m, k) <= m.len(),
        forall|j: int| 0 <= j < lookup_index(m, k) ==> m[j].0 != k,
        lookup_index(m, k) < m.len() ==> m[lookup_index(m, k)].0 == k && lookup(m, k) == Some(
            m[lookup_index(m, k)].1,
        ),
        lookup_index(m, k) == m.len() ==> lookup(m, k) is None,
    decreases m.len(),
{
    if m.len() > 0 && m[0].0 != k {
        lemma_lookup_index(m.drop_first(), k);
        assert forall|j: int| 0 <= j < lookup_index(m, k) implies m[j].0 != k by {
            if j > 0 {
                assert(m.drop_first()[j - 1] == m[j]);
            }
        }
    }
}

/// A value found by `lookup` lies inside the object it was found in.
pub proof fn lemma_lookup_decreases(m: Seq<(Seq<char>, Json)>, k: Seq<char>)
    ensures
        lookup(m, k) matches Some(v) ==> decreases_to!(m => v),
{
    lemma_lookup_index(m, k);
    let i = lookup_index(m, k);
    if i < m.len() {
        assert(decreases_to!(m => m[i]));
        assert(decreases_to!(m[i] => m[i].1));
    }
}

/// The string inside a value, if it is a string (`Value::as_str`).
pub open spec fn json_as_str(v: Json) -> Option<Seq<char>> {
    match v {
        Json::Str(s) => Some(s),
        _ => None,
    }
}

/// The elements of a value, if it is an array (`Value::as_array`).
pub open spec fn json_as_array(v: Json) -> Option<Seq<Json>> {
    match v {
        Json::Array(a) => Some(a),
        _ => None,
    }
}

/// The entries of a value, if it is an object (`Value::as_object`).
pub open spec fn json_as_object(v: Json) -> Option<Seq<(Seq<char>, Json)>> {
    match v {
        Json::Object(m) => Some(m),
        _ => None,
    }
}

/// The field `k` of a value, if it is an object that has one (`Value::get`).
pub open spec fn json_get(v: Json, k: Seq<char>) -> Option<Json> {
    match v {
        Json::Object(m) => lookup(m, k),
        _ => None,
    }
}

/// The element at `i` of a sequence, if there is one (`slice::get`).
pub open spec fn seq_get(s: Seq<Json>, i: int) -> Option<Json> {
    if 0 <= i < s.len() {
        Some(s[i])
    } else {
        None
    }
}

/// The value under key `key` in the entries of an object.
pub fn map_get<'a>(m: &'a Vec<(String, Value)>, key: &str) -> (r: Option<&'a Value>)
    ensures
        match lookup(entries_view(m@), key@) {
            Some(j) => r matches Some(v) && v@ == j,
            None => r is None,
        },
{
    proof {
        lemma_entries_view(m@);
        lemma_lookup_index(entries_view(m@), key@);
    }
    let ghost e = entries_view(m@);
    let ghost idx = lookup_index(e, key@);
    let mut i: usize = 0;
    while i < m.len()
        invariant
            i <= m@.len(),
            e == entries_view(m@),
            e.len() == m@.len(),
            idx == lookup_index(e, key@),
            0 <= idx <= e.len(),
            idx >= i,
            idx < e.len() ==> e[idx].0 == key@ && lookup(e, key@) == Some(e[idx].1),
            idx == e.len() ==> lookup(e, key@) is None,
            forall|j: int| 0 <= j < idx ==> e[j].0 != key@,
            forall|j: int| 0 <= j < m@.len() ==> #[trigger] e[j] == (m@[j].0@, value_view(m@[j].1)),
        decreases m@.len() - i,
    {
        let entry = &m[i];
        if text_eq(entry.0.as_str(), key) {
            assert(e[i as int] == (m@[i as int].0@, value_view(m@[i as int].1)));
            return Some(&entry.1);
        }
        assert(e[i as int] == (m@[i as int].0@, value_view(m@[i as int].1)));
        i = i + 1;
    }
    None
}

impl Value {
    /// The string inside this value, if it is a string.
    pub fn as_str(&self) -> (r: Option<&str>)
        ensures
            match json_as_str(self@) {
                Some(s) => r matches Some(x) && x@ == s,
                None => r is None,
            },
    {
        match self {
            Value::String(s) => Some(s.as_str()),
            _ => None,
        }
    }

    /// The elements of this value, if it is an array.
    pub fn as_array(&self) -> (r: Option<&Vec<Value>>)
        ensures
            match json_as_array(self@) {
                Some(a) => r matches Some(x) && values_view(x@) == a,
                None => r is None,
            },
    {
        match self {
            Value::Array(a) => Some(a),
            _ => None,
        }
    }

    /// The entries of this value, if it is an object.
    pub fn as_object(&self) -> (r: Option<&Vec<(String, Value)>>)
        ensures
            match json_as_object(self@) {
                Some(m) => r matches Some(x) && entries_view(x@) == m,
                None => r is None,
            },
    {
        match self {
            Value::Object(m) => Some(m),
            _ => None,
        }
    }

    /// The field `key` of this value, if it is an object that has one.
    pub fn get(&self, key: &str) -> (r: Option<&Value>)
        ensures
            match json_get(self@, key@) {
                Some(j) => r matches Some(v) && v@ == j,
                None => r is None,
            },
    {
        match self {
            Value::Object(m) => map_get(m, key),
            _ => None,
        }
    }

    /// A copy of this value.
    pub fn duplicate(&self) -> (r: Value)
        ensures
            r@ == self@,
        decreases self,
    {
        match self {
            Value::Null => Value::Null,
            Value::Bool(b) => Value::Bool(*b),
            Value::Number(s) => Value::Number(s.clone()),
            Value::String(s) => Value::String(s.clone()),
            Value::Array(a) => Value::Array(duplicate_values(a)),
            Value::Object(m) => Value::Object(duplicate_entries(m)),
        }
    }
}

/// A copy of a vector of values.
pub fn duplicate_values(a: &Vec<Value>) -> (r: Vec<Value>)
    ensures
        values_view(r@) == values_view(a@),
    decreases a,
{
    let mut r: Vec<Value> = Vec::new();
    let mut i: usize = 0;
    proof {
        lemma_values_view(a@);
    }
    while i < a.len()
        invariant
            i <= a@.len(),
            r@.len() == i,
            values_view(a@).len() == a@.len(),
            forall|j: int| 0 <= j < i ==> value_view(#[trigger] r@[j]) == value_view(a@[j]),
            forall|j: int| 0 <= j < a@.len() ==> #[trigger] values_view(a@)[j] == value_view(a@[j]),
        decreases a@.len() - i,
    {
        proof {
            assert(decreases_to!(a => a@));
            assert(decreases_to!(a@ => a@[i as int]));
        }
        let v = a[i].duplicate();
        r.push(v);
        i = i + 1;
    }
    proof {
        lemma_values_view(r@);
        assert(values_view(r@) =~= values_view(a@));
    }
    r
}

/// A copy of the entries of an object.
pub fn duplicate_entries(m: &Vec<(String, Value)>) -> (r: Vec<(String, Value)>)
    ensures
        entries_view(r@) == entries_view(m@),
    decreases m,
{
    let mut r: Vec<(String, Value)> = Vec::new();
    let mut i: usize = 0;
    proof {
        lemma_entries_view(m@);
    }
    while i < m.len()
        invariant
            i <= m@.len(),
            r@.len() == i,
            entries_view(m@).len() == m@.len(),
            forall|j: int|
                0 <= j < i ==> (#[trigger] r@[j]).0@ == m@[j].0@ && value_view(r@[j].1)
                    == value_view(m@[j].1),
            forall|j: int|
                0 <= j < m@.len() ==> #[trigger] entries_view(m@)[j] == (
                    m@[j].0@,
                    value_view(m@[j].1),
                ),
        decreases m@.len() - i,
    {
        proof {
            assert(decreases_to!(m => m@));
            assert(decreases_to!(m@ => m@[i as int]));
            assert(decreases_to!(m@[i as int] => m@[i as int].1));
        }
        let entry = &m[i];
        let k = entry.0.clone();
        let v = entry.1.duplicate();
        r.push((k, v));
        i = i + 1;
    }
    proof {
        lemma_entries_view(r@);
        assert(entries_view(r@) =~= entries_view(m@));
    }
    r
}

} // verus!

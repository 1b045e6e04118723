//! The JSON value the library reads workflow definitions and message contexts
//! as.
//!
//! An object is an ordered list of `(key, value)` pairs. Lookups return the
//! first pair with a matching key, which is what a reader of an ordered
//! key/value list sees when a key occurs twice.

use vstd::prelude::*;
use crate::text::str_eq;

verus! {

/// A JSON number. Integers are held exactly; any other number is held by its
/// decimal text, which is how it is rendered.
#[derive(Debug, PartialEq)]
pub enum Number {
    /// A whole number in the `i64` range.
    Int(i64),
    /// A whole number above `i64::MAX`.
    UInt(u64),
    /// A number with a fraction or an exponent, by its decimal text.
    Float(String),
}

/// A JSON value.
#[derive(Debug, PartialEq)]
pub enum Json {
    Null,
    Bool(bool),
    Num(Number),
    Str(String),
    Array(Vec<Json>),
    Object(Vec<(String, Json)>),
}

/// The first value under `key` among `entries`.
pub open spec fn lookup(entries: Seq<(String, Json)>, key: Seq<char>) -> Option<Json>
    decreases entries.len(),
{
    if entries.len() == 0 {
        None
    } else if entries[0].0@ == key {
        Some(entries[0].1)
    } else {
        lookup(entries.drop_first(), key)
    }
}

/// Index of the first pair under `key`, or `entries.len()` when none.
pub open spec fn lookup_index(entries: Seq<(String, Json)>, key: Seq<char>) -> int
    decreases entries.len(),
{
    if entries.len() == 0 {
        0
    } else if entries[0].0@ == key {
        0
    } else {
        1 + lookup_index(entries.drop_first(), key)
    }
}

pub proof fn lemma_lookup_index(entries: Seq<(String, Json)>, key: Seq<char>)
    ensures
        0 <= lookup_index(entries, key) <= entries.len(),
        lookup_index(entries, key) < entries.len() ==> entries[lookup_index(entries, key)].0@ == key
            && lookup(entries, key) == Some(entries[lookup_index(entries, key)].1),
        lookup_index(entries, key) == entries.len() ==> lookup(entries, key) is None,
        forall|j: int| 0 <= j < lookup_index(entries, key) ==> entries[j].0@ != key,
    decreases entries.len(),
{
    if entries.len() > 0 && entries[0].0@ != key {
        lemma_lookup_index(entries.drop_first(), key);
        assert forall|j: int| 0 <= j < lookup_index(entries, key) implies entries[j].0@ != key by {
            if j > 0 {
                assert(entries[j] == entries.drop_first()[j - 1]);
            }
        }
    }
}

/// The first value under `key` among `entries`.
pub fn lookup_entry<'a>(entries: &'a Vec<(String, Json)>, key: &str) -> (r: Option<&'a Json>)
    ensures
        match r {
            Some(v) => lookup(entries@, key@) == Some(*v),
            None => lookup(entries@, key@) is None,
        },
{
    let mut i: usize = 0;
    assert(entries@.subrange(0, entries@.len() as int) =~= entries@);
    while i < entries.len()
        invariant
            i <= entries.len(),
            lookup(entries@, key@) == lookup(entries@.subrange(i as int, entries@.len() as int), key@),
        decreases entries.len() - i,
    {
        let ghost rest = entries@.subrange(i as int, entries@.len() as int);
        if str_eq(entries[i].0.as_str(), key) {
            assert(rest.len() > 0 && rest[0] == entries@[i as int]);
            assert(lookup(rest, key@) == Some(rest[0].1));
            assert(entries[i as int].1 == entries@[i as int].1);
            return Some(&entries[i].1);
        }
        assert(rest.drop_first() =~= entries@.subrange(i + 1, entries@.len() as int));
        i = i + 1;
    }
    None
}

/// A JSON value as plain mathematical data: what two values that print
/// the same have in common.
pub enum JsonView {
    Null,
    Bool(bool),
    Int(int),
    Float(Seq<char>),
    Str(Seq<char>),
    Array(Seq<JsonView>),
    Object(Seq<(Seq<char>, JsonView)>),
}

impl Number {
    pub open spec fn view_number(self) -> JsonView {
        match self {
            Number::Int(i) => JsonView::Int(i as int),
            Number::UInt(u) => JsonView::Int(u as int),
            Number::Float(t) => JsonView::Float(t@),
        }
    }

    /// A copy of this number.
    pub fn copy(&self) -> (r: Number)
        ensures
            r.view_number() == self.view_number(),
    {
        match self {
            Number::Int(i) => Number::Int(*i),
            Number::UInt(u) => Number::UInt(*u),
            Number::Float(t) => Number::Float(t.clone()),
        }
    }
}

/// The views of a list of values.
pub open spec fn items_view(items: Seq<Json>) -> Seq<JsonView>
    decreases items,
{
    if items.len() == 0 {
        Seq::empty()
    } else {
        seq![items[0].view_json()] + items_view(items.subrange(1, items.len() as int))
    }
}

/// The views of a list of object entries.
pub open spec fn entries_view(entries: Seq<(String, Json)>) -> Seq<(Seq<char>, JsonView)>
    decreases entries,
{
    if entries.len() == 0 {
        Seq::empty()
    } else {
        seq![(entries[0].0@, entries[0].1.view_json())] + entries_view(
            entries.subrange(1, entries.len() as int),
        )
    }
}

pub proof fn lemma_items_view_index(items: Seq<Json>, i: int)
    requires
        0 <= i < items.len(),
    ensures
        items_view(items).len() == items.len(),
        items_view(items)[i] == items[i].view_json(),
    decreases items.len(),
{
    lemma_items_view_len(items);
    if i > 0 {
        lemma_items_view_index(items.subrange(1, items.len() as int), i - 1);
    }
}

pub proof fn lemma_items_view_len(items: Seq<Json>)
    ensures
        items_view(items).len() == items.len(),
    decreases items.len(),
{
    if items.len() > 0 {
        lemma_items_view_len(items.subrange(1, items.len() as int));
    }
}

pub proof fn lemma_entries_view_len(entries: Seq<(String, Json)>)
    ensures
        entries_view(entries).len() == entries.len(),
    decreases entries.len(),
{
    if entries.len() > 0 {
        lemma_entries_view_len(entries.subrange(1, entries.len() as int));
    }
}

pub proof fn lemma_entries_view_index(entries: Seq<(String, Json)>, i: int)
    requires
        0 <= i < entries.len(),
    ensures
        entries_view(entries).len() == entries.len(),
        entries_view(entries)[i] == (entries[i].0@, entries[i].1.view_json()),
    decreases entries.len(),
{
    lemma_entries_view_len(entries);
    if i > 0 {
        lemma_entries_view_index(entries.subrange(1, entries.len() as int), i - 1);
    }
}

/// Two lists of values with pointwise-equal views have equal views.
pub proof fn lemma_items_view_pointwise(a: Seq<Json>, b: Seq<Json>)
    requires
        a.len() == b.len(),
        forall|i: int| 0 <= i < a.len() ==> a[i].view_json() == b[i].view_json(),
    ensures
        items_view(a) == items_view(b),
{
    lemma_items_view_len(a);
    lemma_items_view_len(b);
    assert forall|i: int| 0 <= i < a.len() implies items_view(a)[i] == items_view(b)[i] by {
        lemma_items_view_index(a, i);
        lemma_items_view_index(b, i);
    }
    assert(items_view(a) =~= items_view(b));
}

/// Two lists of entries with pointwise-equal keys and views have equal views.
pub proof fn lemma_entries_view_pointwise(a: Seq<(String, Json)>, b: Seq<(String, Json)>)
    requires
        a.len() == b.len(),
        forall|i: int|
            0 <= i < a.len() ==> a[i].0@ == b[i].0@ && a[i].1.view_json() == b[i].1.view_json(),
    ensures
        entries_view(a) == entries_view(b),
{
    lemma_entries_view_len(a);
    lemma_entries_view_len(b);
    assert forall|i: int| 0 <= i < a.len() implies entries_view(a)[i] == entries_view(b)[i] by {
        lemma_entries_view_index(a, i);
        lemma_entries_view_index(b, i);
    }
    assert(entries_view(a) =~= entries_view(b));
}

impl Json {
    /// This value as plain data.
    pub open spec fn view_json(self) -> JsonView
        decreases self,
    {
        match self {
            Json::Null => JsonView::Null,
            Json::Bool(b) => JsonView::Bool(b),
            Json::Num(n) => n.view_number(),
            Json::Str(s) => JsonView::Str(s@),
            Json::Array(items) => JsonView::Array(items_view(items@)),
            Json::Object(entries) => JsonView::Object(entries_view(entries@)),
        }
    }

    /// A deep copy of this value.
    pub fn copy(&self) -> (r: Json)
        ensures
            r.view_json() == self.view_json(),
        decreases self,
    {
        match self {
            Json::Null => Json::Null,
            Json::Bool(b) => Json::Bool(*b),
            Json::Num(n) => Json::Num(n.copy()),
            Json::Str(s) => Json::Str(s.clone()),
            Json::Array(items) => {
                let mut out: Vec<Json> = Vec::new();
                let mut i: usize = 0;
                while i < items.len()
                    invariant
                        i <= items@.len(),
                        *self == Json::Array(*items),
                        out@.len() == i,
                        forall|j: int| 0 <= j < i ==> out@[j].view_json() == items@[j].view_json(),
                    decreases items@.len() - i,
                {
                    assert(decreases_to!(*self => self->Array_0));
                    assert(decreases_to!(self->Array_0 => self->Array_0@));
                    assert(decreases_to!(items@ => items@[i as int]));
                    out.push(items[i].copy());
                    i = i + 1;
                }
                proof {
                    lemma_items_view_pointwise(out@, items@);
                }
                Json::Array(out)
            },
            Json::Object(entries) => {
                let mut out: Vec<(String, Json)> = Vec::new();
                let mut i: usize = 0;
                while i < entries.len()
                    invariant
                        i <= entries@.len(),
                        *self == Json::Object(*entries),
                        out@.len() == i,
                        forall|j: int|
                            0 <= j < i ==> out@[j].0@ == entries@[j].0@ && out@[j].1.view_json()
                                == entries@[j].1.view_json(),
                    decreases entries@.len() - i,
                {
                    assert(decreases_to!(*self => self->Object_0));
                    assert(decreases_to!(self->Object_0 => self->Object_0@));
                    assert(decreases_to!(entries@ => entries@[i as int]));
                    assert(decreases_to!(entries@[i as int] => entries@[i as int].1));
                    let key = entries[i].0.clone();
                    let value = entries[i].1.copy();
                    out.push((key, value));
                    i = i + 1;
                }
                proof {
                    lemma_entries_view_pointwise(out@, entries@);
                }
                Json::Object(out)
            },
        }
    }
}

impl Json {
    /// The value under `key`, for an object; `None` otherwise.
    pub open spec fn field(self, key: Seq<char>) -> Option<Json> {
        match self {
            Json::Object(entries) => lookup(entries@, key),
            _ => None,
        }
    }

    /// The text of a string value.
    pub open spec fn str_of(self) -> Option<Seq<char>> {
        match self {
            Json::Str(s) => Some(s@),
            _ => None,
        }
    }

    /// The items of an array value.
    pub open spec fn items(self) -> Option<Seq<Json>> {
        match self {
            Json::Array(items) => Some(items@),
            _ => None,
        }
    }

    /// The value as an `i64`, as a JSON reader answers it: an integer in range.
    pub open spec fn int_of(self) -> Option<i64> {
        match self {
            Json::Num(Number::Int(i)) => Some(i),
            Json::Num(Number::UInt(u)) => if u <= i64::MAX {
                Some(u as i64)
            } else {
                None
            },
            _ => None,
        }
    }

    /// The value under `key` of an object.
    pub fn get(&self, key: &str) -> (r: Option<&Json>)
        ensures
            match r {
                Some(v) => self.field(key@) == Some(*v),
                None => self.field(key@) is None,
            },
    {
        match self {
            Json::Object(entries) => lookup_entry(entries, key),
            _ => None,
        }
    }

    /// The text of a string value.
    pub fn as_str(&self) -> (r: Option<&str>)
        ensures
            match r {
                Some(s) => self.str_of() == Some(s@),
                None => self.str_of() is None,
            },
    {
        match self {
            Json::Str(s) => Some(s.as_str()),
            _ => None,
        }
    }

    /// The items of an array value.
    pub fn as_array(&self) -> (r: Option<&Vec<Json>>)
        ensures
            match r {
                Some(v) => self.items() == Some(v@),
                None => self.items() is None,
            },
    {
        match self {
            Json::Array(items) => Some(items),
            _ => None,
        }
    }

    /// The value as an `i64`, when it is an integer in range.
    pub fn as_i64(&self) -> (r: Option<i64>)
        ensures
            r == self.int_of(),
    {
        match self {
            Json::Num(Number::Int(i)) => Some(*i),
            Json::Num(Number::UInt(u)) => if *u <= 9223372036854775807u64 {
                Some(*u as i64)
            } else {
                None
            },
            _ => None,
        }
    }

    /// The value as a boolean.
    pub fn as_bool(&self) -> (r: Option<bool>)
        ensures
            r == (match *self {
                Json::Bool(b) => Some(b),
                _ => None::<bool>,
            }),
    {
        match self {
            Json::Bool(b) => Some(*b),
            _ => None,
        }
    }

    /// Whether this is a boolean.
    pub fn is_boolean(&self) -> (r: bool)
        ensures
            r == (*self is Bool),
    {
        match self {
            Json::Bool(_) => true,
            _ => false,
        }
    }

    /// Whether this is an object.
    pub fn is_object(&self) -> (r: bool)
        ensures
            r == (*self is Object),
    {
        match self {
            Json::Object(_) => true,
            _ => false,
        }
    }

    /// Whether this is `null`.
    pub fn is_null(&self) -> (r: bool)
        ensures
            r == (*self is Null),
    {
        match self {
            Json::Null => true,
            _ => false,
        }
    }
}

/// The value at `key` as a non-empty string, if it is one.
pub open spec fn non_empty_str_of(field: Option<Json>) -> Option<Seq<char>> {
    match field {
        Some(v) => match v.str_of() {
            Some(s) => if s.len() > 0 {
                Some(s)
            } else {
                None
            },
            None => None,
        },
        None => None,
    }
}

/// The value under `key` of `json` as a non-empty string.
pub fn non_empty_str<'a>(json: &'a Json, key: &str) -> (r: Option<&'a str>)
    ensures
        match r {
            Some(s) => non_empty_str_of(json.field(key@)) == Some(s@),
            None => non_empty_str_of(json.field(key@)) is None,
        },
{
    match json.get(key) {
        Some(v) => match v.as_str() {
            Some(s) => if s.unicode_len() > 0 {
                Some(s)
            } else {
                None
            },
            None => None,
        },
        None => None,
    }
}

} // verus!

//! Library values handed to the JSONLogic engine, which reads
//! `serde_json::Value`s.
//!
//! A library value is built into a `serde_json::Value` node by node; the
//! built value carries, as ghost state, the library value it was built
//! from. Building is deterministic, so what the engine makes of a built
//! value is a function of that library value.

use vstd::prelude::*;
use crate::json::{Json, JsonView, Number, entries_view, items_view};
use crate::reading::{lemma_entries_view_matches, lemma_items_view_matches};

verus! {

/// A `serde_json::Value` built from a library value.
pub struct EngineValue {
    pub(crate) value: serde_json::Value,
    source: Ghost<JsonView>,
}

impl EngineValue {
    /// The library value this was built from.
    pub closed spec fn source(&self) -> JsonView {
        self.source@
    }

    /// The value as `serde_json` holds it.
    pub(crate) fn into_value(self) -> serde_json::Value {
        self.value
    }
}

/// `serde_json::Value::Null`.
#[verifier::external_body]
fn value_null() -> (r: EngineValue)
    ensures
        r.source() == JsonView::Null,
{
    EngineValue { value: serde_json::Value::Null, source: Ghost(JsonView::Null) }
}

/// `serde_json::Value::Bool`.
#[verifier::external_body]
fn value_bool(b: bool) -> (r: EngineValue)
    ensures
        r.source() == JsonView::Bool(b),
{
    EngineValue { value: serde_json::Value::Bool(b), source: Ghost(JsonView::Bool(b)) }
}

/// `serde_json::Value::from(i64)`.
#[verifier::external_body]
fn value_i64(i: i64) -> (r: EngineValue)
    ensures
        r.source() == JsonView::Int(i as int),
{
    EngineValue { value: serde_json::Value::from(i), source: Ghost(JsonView::Int(i as int)) }
}

/// `serde_json::Value::from(u64)`.
#[verifier::external_body]
fn value_u64(u: u64) -> (r: EngineValue)
    ensures
        r.source() == JsonView::Int(u as int),
{
    EngineValue { value: serde_json::Value::from(u), source: Ghost(JsonView::Int(u as int)) }
}

/// A number read from its decimal text (`serde_json::Number`'s `FromStr`),
/// `null` when the text does not read as one.
#[verifier::external_body]
fn value_float(text: &str) -> (r: EngineValue)
    ensures
        r.source() == JsonView::Float(text@),
{
    let value = match text.parse::<serde_json::Number>() {
        Ok(n) => serde_json::Value::Number(n),
        Err(_) => serde_json::Value::Null,
    };
    EngineValue { value, source: Ghost(JsonView::Float(text@)) }
}

/// `serde_json::Value::String`.
#[verifier::external_body]
fn value_string(s: String) -> (r: EngineValue)
    ensures
        r.source() == JsonView::Str(s@),
{
    EngineValue { source: Ghost(JsonView::Str(s@)), value: serde_json::Value::String(s) }
}

/// The sources of built values.
pub open spec fn sources(items: Seq<EngineValue>) -> Seq<JsonView> {
    items.map_values(|v: EngineValue| v.source())
}

/// The keys and sources of built entries.
pub open spec fn entry_sources(entries: Seq<(String, EngineValue)>) -> Seq<(Seq<char>, JsonView)> {
    entries.map_values(|e: (String, EngineValue)| (e.0@, e.1.source()))
}

/// `serde_json::Value::Array` of the built items, in order.
#[verifier::external_body]
fn value_array(items: Vec<EngineValue>) -> (r: EngineValue)
    ensures
        r.source() == JsonView::Array(sources(items@)),
{
    EngineValue {
        source: Ghost(JsonView::Array(sources(items@))),
        value: serde_json::Value::Array(items.into_iter().map(|v| v.value).collect()),
    }
}

/// `serde_json::Value::Object` collected from the built entries, in order
/// (`serde_json::Map`'s `FromIterator`).
#[verifier::external_body]
fn value_object(entries: Vec<(String, EngineValue)>) -> (r: EngineValue)
    ensures
        r.source() == JsonView::Object(entry_sources(entries@)),
{
    EngineValue {
        source: Ghost(JsonView::Object(entry_sources(entries@))),
        value: serde_json::Value::Object(entries.into_iter().map(|(k, v)| (k, v.value)).collect()),
    }
}

/// A library value built into a `serde_json::Value`.
pub fn to_engine(j: &Json) -> (r: EngineValue)
    ensures
        r.source() == j.view_json(),
    decreases j,
{
    match j {
        Json::Null => value_null(),
        Json::Bool(b) => value_bool(*b),
        Json::Num(Number::Int(i)) => value_i64(*i),
        Json::Num(Number::UInt(u)) => value_u64(*u),
        Json::Num(Number::Float(t)) => value_float(t.as_str()),
        Json::Str(s) => value_string(s.clone()),
        Json::Array(items) => {
            let mut built: Vec<EngineValue> = Vec::new();
            let mut k: usize = 0;
            while k < items.len()
                invariant
                    k <= items@.len(),
                    *j == Json::Array(*items),
                    built@.len() == k,
                    forall|i: int| 0 <= i < k ==> (#[trigger] built@[i]).source() == items@[i].view_json(),
                decreases items@.len() - k,
            {
                assert(decreases_to!(*j => j->Array_0));
                assert(decreases_to!(j->Array_0 => j->Array_0@));
                assert(decreases_to!(items@ => items@[k as int]));
                built.push(to_engine(&items[k]));
                k = k + 1;
            }
            proof {
                lemma_items_view_matches(items@, sources(built@));
            }
            value_array(built)
        },
        Json::Object(entries) => {
            let mut built: Vec<(String, EngineValue)> = Vec::new();
            let mut k: usize = 0;
            while k < entries.len()
                invariant
                    k <= entries@.len(),
                    *j == Json::Object(*entries),
                    built@.len() == k,
                    forall|i: int|
                        0 <= i < k ==> (#[trigger] built@[i]).0@ == entries@[i].0@ && built@[i].1.source()
                            == entries@[i].1.view_json(),
                decreases entries@.len() - k,
            {
                assert(decreases_to!(*j => j->Object_0));
                assert(decreases_to!(j->Object_0 => j->Object_0@));
                assert(decreases_to!(entries@ => entries@[k as int]));
                assert(decreases_to!(entries@[k as int] => entries@[k as int].1));
                let (key, x) = &entries[k];
                built.push((key.clone(), to_engine(x)));
                k = k + 1;
            }
            proof {
                lemma_entries_view_matches(entries@, entry_sources(built@));
            }
            value_object(built)
        },
    }
}

/// The two-space indented JSON text `serde_json` writes for the value
/// built from `source`.
pub uninterp spec fn pretty_text(source: JsonView) -> Seq<char>;

/// `serde_json::to_string_pretty` on a built value. Writing a
/// `serde_json::Value` does not fail (its keys are strings), so the error
/// arm, which would give the empty text, is never taken; the text depends
/// on the value alone, and so on its source.
#[verifier::external_body]
pub(crate) fn pretty_json(v: &EngineValue) -> (r: String)
    ensures
        r@ == pretty_text(v.source()),
{
    serde_json::to_string_pretty(&v.value).unwrap_or_default()
}

} // verus!

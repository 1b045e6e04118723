//! Reading JSON and XML text into the library's JSON values.
//!
//! `serde_json` and `quick-xml` read the text; the value they build is then
//! walked, node by node, into a [`Json`]. Whether a text reads is theirs to
//! decide, and is named here by the text alone.

use vstd::prelude::*;
use crate::error::DataflowError;
use crate::json::{
    Json, JsonView, Number, items_view, entries_view, lemma_items_view_index, lemma_items_view_len,
    lemma_entries_view_index, lemma_entries_view_len,
};
use crate::message::{Message, is_context_from, uuid_shaped};
use crate::text::{owned, push_str};

verus! {

/// What `serde_json` reads from `text`: the value, as library values (a
/// number as a whole number when it reads as an `i64` or a `u64`, else by
/// its text; an object's entries in the order its map yields them), or
/// `None` when the text does not read.
pub uninterp spec fn json_reading(text: Seq<char>) -> Option<JsonView>;

/// Whether `serde_json` reads `text` as a JSON value.
pub open spec fn reads_json(text: Seq<char>) -> bool {
    json_reading(text) is Some
}

/// The value `serde_json` reads from `text`.
pub open spec fn json_read(text: Seq<char>) -> JsonView {
    match json_reading(text) {
        Some(v) => v,
        None => JsonView::Null,
    }
}

/// What `quick-xml`'s serde reader reads from `text`: the value, read as
/// for [`json_reading`], or the reader's error text.
pub uninterp spec fn xml_reading(text: Seq<char>) -> Result<JsonView, Seq<char>>;

/// Whether `quick-xml`'s serde reader reads `text` as a value.
pub open spec fn reads_xml(text: Seq<char>) -> bool {
    xml_reading(text) is Ok
}

/// The value `quick-xml`'s serde reader reads from `text`.
pub open spec fn xml_read(text: Seq<char>) -> JsonView {
    match xml_reading(text) {
        Ok(v) => v,
        Err(_) => JsonView::Null,
    }
}

/// The reader's error text for XML text that does not read.
pub open spec fn xml_failure(text: Seq<char>) -> Seq<char> {
    match xml_reading(text) {
        Ok(_) => Seq::empty(),
        Err(m) => m,
    }
}

/// A value `serde_json` or `quick-xml` built, with the library value it
/// stands for, carried as ghost state: the reader that built the value
/// says, in its contract, which value that is, and the node readers below
/// say how the built value's nodes show it.
pub struct ReadValue {
    value: serde_json::Value,
    shape: Ghost<JsonView>,
}

/// A node of a read value, borrowed, with the library value it stands for.
pub struct ReadNode<'a> {
    value: &'a serde_json::Value,
    shape: Ghost<JsonView>,
}

impl ReadValue {
    /// The library value this stands for.
    pub closed spec fn shape(&self) -> JsonView {
        self.shape@
    }
}

impl<'a> ReadNode<'a> {
    /// The library value this stands for.
    pub closed spec fn shape(&self) -> JsonView {
        self.shape@
    }
}

/// `serde_json::from_str::<serde_json::Value>`: JSON text read as a value.
/// Whether it reads, and the value read, depend on the text alone.
#[verifier::external_body]
pub(crate) fn read_json_value(text: &str) -> (r: Result<ReadValue, serde_json::Error>)
    ensures
        r is Ok <==> json_reading(text@) is Some,
        r matches Ok(v) ==> json_reading(text@) == Some(v.shape()),
{
    match serde_json::from_str(text) {
        Ok(value) => Ok(ReadValue { value, shape: Ghost(arbitrary()) }),
        Err(e) => Err(e),
    }
}

/// `quick_xml::de::from_str::<serde_json::Value>`: XML text read as a value,
/// the error by its `Display` text. Whether it reads, the value read and the
/// error text depend on the text alone.
#[verifier::external_body]
fn read_xml_value(text: &str) -> (r: Result<ReadValue, String>)
    ensures
        r matches Ok(v) ==> (xml_reading(text@) matches Ok(x) && x == v.shape()),
        r matches Err(m) ==> (xml_reading(text@) matches Err(t) && t == m@),
{
    match quick_xml::de::from_str::<serde_json::Value>(text) {
        Ok(value) => Ok(ReadValue { value, shape: Ghost(arbitrary()) }),
        Err(e) => Err(e.to_string()),
    }
}

/// What `serde_json` reads from the bytes `bytes`, read as for
/// [`json_reading`]; `None` when they do not read.
pub uninterp spec fn json_bytes_reading(bytes: Seq<u8>) -> Option<JsonView>;

/// Whether `serde_json` reads the bytes `bytes` as a JSON value.
pub open spec fn reads_json_bytes(bytes: Seq<u8>) -> bool {
    json_bytes_reading(bytes) is Some
}

/// The value `serde_json` reads from the bytes `bytes`.
pub open spec fn json_bytes_read(bytes: Seq<u8>) -> JsonView {
    match json_bytes_reading(bytes) {
        Some(v) => v,
        None => JsonView::Null,
    }
}

/// `serde_json::from_slice::<serde_json::Value>`: bytes read as a JSON
/// value. Whether they read, and the value read, depend on the bytes alone.
#[verifier::external_body]
pub(crate) fn read_json_bytes(bytes: &[u8]) -> (r: Option<ReadValue>)
    ensures
        r is Some <==> json_bytes_reading(bytes@) is Some,
        r matches Some(v) ==> json_bytes_reading(bytes@) == Some(v.shape()),
{
    match serde_json::from_slice(bytes) {
        Ok(value) => Some(ReadValue { value, shape: Ghost(arbitrary()) }),
        Err(_) => None,
    }
}

/// What `serde_urlencoded` reads from the query string `query`: an object
/// of its parameters, read as for [`json_reading`]; `None` when it does
/// not read.
pub uninterp spec fn query_reading(query: Seq<char>) -> Option<JsonView>;

/// Whether `serde_urlencoded` reads the query string `query`.
pub open spec fn reads_query(query: Seq<char>) -> bool {
    query_reading(query) is Some
}

/// The value `serde_urlencoded` reads from the query string `query`.
pub open spec fn query_read(query: Seq<char>) -> JsonView {
    match query_reading(query) {
        Some(v) => v,
        None => JsonView::Null,
    }
}

/// `serde_urlencoded::from_str::<serde_json::Value>`: a query string read
/// as a value. Whether it reads, and the value read, depend on the text
/// alone.
#[verifier::external_body]
pub(crate) fn read_query(query: &str) -> (r: Option<ReadValue>)
    ensures
        r is Some <==> query_reading(query@) is Some,
        r matches Some(v) ==> query_reading(query@) == Some(v.shape()),
{
    match serde_urlencoded::from_str::<serde_json::Value>(query) {
        Ok(value) => Some(ReadValue { value, shape: Ghost(arbitrary()) }),
        Err(_) => None,
    }
}

/// The compact JSON text `serde_json` writes for a value (`Display`), by
/// the library value it stands for.
pub uninterp spec fn display_text(v: JsonView) -> Seq<char>;

/// `serde_json::Value`'s `Display`: the value as compact JSON text. The
/// text depends on the value alone.
#[verifier::external_body]
pub(crate) fn value_display(v: &ReadValue) -> (r: String)
    ensures
        r@ == display_text(v.shape()),
{
    v.value.to_string()
}

/// A `serde_json::Value` whose library value is not known beforehand (one
/// the JSONLogic engine returned, which rests on the engine and the clock),
/// carried with the library value it stands for. Nothing is claimed of
/// that; the walk below still reads it exactly.
#[verifier::external_body]
pub(crate) fn engine_value(value: serde_json::Value) -> (r: ReadValue) {
    ReadValue { value, shape: Ghost(arbitrary()) }
}

/// One node of a `serde_json::Value`, its children by count.
pub enum Node {
    Null,
    Bool(bool),
    /// A number: as an `i64` when it is one, as a `u64` when it is one, and
    /// its text.
    Number(Option<i64>, Option<u64>, String),
    Str(String),
    Array(usize),
    Object(usize),
}

/// A number as library values: a whole number when it reads as an `i64`
/// or a `u64`, else its text.
pub open spec fn number_view(as_i64: Option<i64>, as_u64: Option<u64>, text: Seq<char>) -> JsonView {
    match as_i64 {
        Some(i) => JsonView::Int(i as int),
        None => match as_u64 {
            Some(u) => JsonView::Int(u as int),
            None => JsonView::Float(text),
        },
    }
}

/// Whether `n` is the top node of the library value `j`.
pub open spec fn node_matches(n: Node, j: JsonView) -> bool {
    match n {
        Node::Null => j == JsonView::Null,
        Node::Bool(b) => j == JsonView::Bool(b),
        Node::Number(i, u, t) => j == number_view(i, u, t@),
        Node::Str(s) => j == JsonView::Str(s@),
        Node::Array(len) => j matches JsonView::Array(items) && items.len() == len,
        Node::Object(len) => j matches JsonView::Object(entries) && entries.len() == len,
    }
}

/// The top node of a read value.
fn top(v: &ReadValue) -> (r: ReadNode<'_>)
    ensures
        r.shape() == v.shape(),
{
    ReadNode { value: &v.value, shape: Ghost(v.shape@) }
}

/// The variant of a `serde_json::Value`, with its fields moved out (a number
/// through `as_i64`, `as_u64` and `to_string`; a container by `len`): the
/// top node of the value it stands for.
#[verifier::external_body]
fn node_of(v: &ReadNode) -> (r: Node)
    ensures
        node_matches(r, v.shape()),
{
    match v.value {
        serde_json::Value::Null => Node::Null,
        serde_json::Value::Bool(b) => Node::Bool(*b),
        serde_json::Value::Number(n) => Node::Number(n.as_i64(), n.as_u64(), n.to_string()),
        serde_json::Value::String(s) => Node::Str(s.clone()),
        serde_json::Value::Array(a) => Node::Array(a.len()),
        serde_json::Value::Object(m) => Node::Object(m.len()),
    }
}

/// `Index<usize>` on an array value: its item at `i`.
#[verifier::external_body]
fn item_at<'a>(v: &ReadNode<'a>, i: usize) -> (r: ReadNode<'a>)
    requires
        v.shape() matches JsonView::Array(items) && i < items.len(),
    ensures
        r.shape() == v.shape()->Array_0[i as int],
{
    ReadNode { value: &v.value[i], shape: Ghost(arbitrary()) }
}

/// The `i`-th entry of an object value, in its map's order
/// (`Map::iter().nth`).
#[verifier::external_body]
fn entry_at<'a>(v: &ReadNode<'a>, i: usize) -> (r: Option<(&'a String, ReadNode<'a>)>)
    requires
        v.shape() matches JsonView::Object(entries) && i < entries.len(),
    ensures
        r is Some,
        r matches Some(e) ==> e.0@ == v.shape()->Object_0[i as int].0,
        r matches Some(e) ==> e.1.shape() == v.shape()->Object_0[i as int].1,
{
    match v.value.as_object().and_then(|m| m.iter().nth(i)) {
        Some((k, x)) => Some((k, ReadNode { value: x, shape: Ghost(arbitrary()) })),
        None => None,
    }
}

/// A number node as a library number: an integer when it fits `i64`, else
/// `u64`, else its text.
pub fn number_of(as_i64: Option<i64>, as_u64: Option<u64>, text: String) -> (r: Number)
    ensures
        r == match as_i64 {
            Some(i) => Number::Int(i),
            None => match as_u64 {
                Some(u) => Number::UInt(u),
                None => Number::Float(text),
            },
        },
{
    match as_i64 {
        Some(i) => Number::Int(i),
        None => match as_u64 {
            Some(u) => Number::UInt(u),
            None => Number::Float(text),
        },
    }
}

/// A read value as a library value, node by node: exactly the value it
/// stands for.
pub(crate) fn json_of(v: &ReadNode) -> (r: Json)
    ensures
        r.view_json() == v.shape(),
    decreases v.shape(),
{
    match node_of(v) {
        Node::Null => Json::Null,
        Node::Bool(b) => Json::Bool(b),
        Node::Number(i, u, t) => Json::Num(number_of(i, u, t)),
        Node::Str(s) => Json::Str(s),
        Node::Array(n) => {
            let ghost shapes = v.shape()->Array_0;
            let mut items: Vec<Json> = Vec::new();
            let mut k: usize = 0;
            while k < n
                invariant
                    v.shape() == JsonView::Array(shapes),
                    shapes.len() == n,
                    k <= n,
                    items.len() == k,
                    forall|j: int| 0 <= j < k ==> (#[trigger] items@[j]).view_json() == shapes[j],
                decreases n - k,
            {
                let item = item_at(v, k);
                proof {
                    assert(decreases_to!(v.shape() => shapes));
                    assert(decreases_to!(shapes => shapes[k as int]));
                }
                items.push(json_of(&item));
                k = k + 1;
            }
            proof {
                lemma_items_view_matches(items@, shapes);
            }
            Json::Array(items)
        },
        Node::Object(n) => {
            let ghost shapes = v.shape()->Object_0;
            let mut entries: Vec<(String, Json)> = Vec::new();
            let mut k: usize = 0;
            while k < n
                invariant
                    v.shape() == JsonView::Object(shapes),
                    shapes.len() == n,
                    k <= n,
                    entries.len() == k,
                    forall|j: int|
                        0 <= j < k ==> (#[trigger] entries@[j]).0@ == shapes[j].0
                            && entries@[j].1.view_json() == shapes[j].1,
                decreases n - k,
            {
                match entry_at(v, k) {
                    Some((key, x)) => {
                        proof {
                            assert(decreases_to!(v.shape() => shapes));
                            assert(decreases_to!(shapes => shapes[k as int]));
                            assert(decreases_to!(shapes[k as int] => shapes[k as int].1));
                        }
                        entries.push((owned(key.as_str()), json_of(&x)));
                    },
                    None => {},
                }
                k = k + 1;
            }
            proof {
                lemma_entries_view_matches(entries@, shapes);
            }
            Json::Object(entries)
        },
    }
}

/// A list of values whose views are, one by one, `target` has the view
/// `target`.
pub(crate) proof fn lemma_items_view_matches(items: Seq<Json>, target: Seq<JsonView>)
    requires
        items.len() == target.len(),
        forall|j: int| 0 <= j < items.len() ==> (#[trigger] items[j]).view_json() == target[j],
    ensures
        items_view(items) == target,
{
    lemma_items_view_len(items);
    assert forall|j: int| 0 <= j < items.len() implies items_view(items)[j] == target[j] by {
        lemma_items_view_index(items, j);
    }
    assert(items_view(items) =~= target);
}

/// A list of entries whose keys and views are, one by one, `target` has the
/// view `target`.
pub(crate) proof fn lemma_entries_view_matches(entries: Seq<(String, Json)>, target: Seq<(Seq<char>, JsonView)>)
    requires
        entries.len() == target.len(),
        forall|j: int|
            0 <= j < entries.len() ==> (#[trigger] entries[j]).0@ == target[j].0
                && entries[j].1.view_json() == target[j].1,
    ensures
        entries_view(entries) == target,
{
    lemma_entries_view_len(entries);
    assert forall|j: int| 0 <= j < entries.len() implies entries_view(entries)[j] == target[j] by {
        lemma_entries_view_index(entries, j);
    }
    assert(entries_view(entries) =~= target);
}

/// The top node of a read value.
pub(crate) fn top_node(v: &ReadValue) -> (r: Node)
    ensures
        node_matches(r, v.shape()),
{
    node_of(&top(v))
}

/// A read value as a library value: exactly the value it stands for.
pub(crate) fn value_of(v: &ReadValue) -> (r: Json)
    ensures
        r.view_json() == v.shape(),
{
    json_of(&top(v))
}

/// JSON text read as a library value: `Some` exactly when `serde_json`
/// reads it, holding the value it reads.
pub fn parse_json_text(text: &str) -> (r: Option<Json>)
    ensures
        r is Some <==> reads_json(text@),
        r matches Some(j) ==> j.view_json() == json_read(text@),
{
    match read_json_value(text) {
        Ok(v) => Some(value_of(&v)),
        Err(_) => None,
    }
}

/// The message a failed XML read carries.
pub open spec fn xml_error_message(text: Seq<char>) -> Seq<char> {
    "Failed to parse XML: "@ + xml_failure(text)
}

/// XML text read as a library value, through quick-xml's serde reader. It
/// succeeds exactly when the reader reads the text, with the value it reads; a failure is a
/// `Validation` error: `Failed to parse XML: ` and the reader's text.
pub fn xml_to_json(text: &str) -> (r: Result<Json, DataflowError>)
    ensures
        r is Ok <==> reads_xml(text@),
        r matches Ok(j) ==> j.view_json() == xml_read(text@),
        r matches Err(e) ==> (e matches DataflowError::Validation(m) && m@ == xml_error_message(
            text@,
        )),
{
    match read_xml_value(text) {
        Ok(v) => Ok(value_of(&v)),
        Err(detail) => {
            let mut m = owned("Failed to parse XML: ");
            push_str(&mut m, detail.as_str());
            Err(DataflowError::Validation(m))
        },
    }
}

impl Message {
    /// A message whose payload is read from JSON text. It succeeds exactly
    /// when the text reads as JSON; a failure is a `Deserialization` error.
    /// A success is a message as [`Message::new`] makes one.
    pub fn from_json_str(payload: &str) -> (r: Result<Message, DataflowError>)
        ensures
            r is Ok <==> reads_json(payload@),
            r matches Err(e) ==> e is Deserialization,
            r matches Ok(m) ==> {
                &&& m.payload_value().view_json() == json_read(payload@)
                &&& m.id_wf()
                &&& uuid_shaped(m.id_text())
                &&& is_context_from(m.ctx(), None, None, None)
                &&& m.trail().len() == 0
                &&& m.recorded_errors().len() == 0
                &&& m.captures()
                &&& m.bucket() is None
            },
    {
        match read_json_value(payload) {
            Ok(v) => Ok(Message::new(value_of(&v))),
            Err(e) => Err(DataflowError::from_serde(e)),
        }
    }
}

} // verus!

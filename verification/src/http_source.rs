//! The HTTP source: what a request becomes, once the server has read it.
//!
//! A request to another path is answered `404`, one whose method is not
//! allowed `405`; any other becomes a message. A `GET` carries its query
//! parameters, a `POST` its body read as JSON; either, when it does not
//! read, is kept as `{"raw": <text>}`. The metadata names the source, the
//! method, the path, the headers and the time the request arrived.

use vstd::prelude::*;
use crate::json::{Json, JsonView, entries_view};
use crate::message::{Message, is_context_from};
use crate::reading::{
    json_bytes_read, lemma_entries_view_matches, query_read, read_json_bytes, read_query,
    reads_json_bytes, reads_query, value_of,
};
use crate::text::{owned, str_eq};

verus! {

/// The text `String::from_utf8_lossy` decodes from `bytes`.
pub uninterp spec fn utf8_lossy(bytes: Seq<u8>) -> Seq<char>;

/// `String::from_utf8_lossy`: bytes decoded as UTF-8, each invalid sequence
/// replaced by U+FFFD. The text depends on the bytes alone.
#[verifier::external_body]
fn lossy_text(bytes: &[u8]) -> (r: String)
    ensures
        r@ == utf8_lossy(bytes@),
{
    String::from_utf8_lossy(bytes).into_owned()
}

/// `{"raw": text}`.
pub open spec fn raw_object(text: Seq<char>) -> JsonView {
    JsonView::Object(seq![("raw"@, JsonView::Str(text))])
}

/// The payload of a request: a `GET`'s query parameters, a `POST`'s body
/// read as JSON, each kept raw when it does not read; an empty object for
/// any other method.
pub open spec fn request_payload(method: Seq<char>, query: Seq<char>, body: Seq<u8>) -> JsonView {
    if method == "GET"@ {
        if reads_query(query) {
            query_read(query)
        } else {
            raw_object(query)
        }
    } else if method == "POST"@ {
        if reads_json_bytes(body) {
            json_bytes_read(body)
        } else {
            raw_object(utf8_lossy(body))
        }
    } else {
        JsonView::Object(Seq::empty())
    }
}

/// Whether no two entries share a key.
pub open spec fn keys_distinct(es: Seq<(Seq<char>, JsonView)>) -> bool {
    forall|i: int, j: int| 0 <= i < j < es.len() ==> es[i].0 != es[j].0
}

/// `es` with `key` set to `value`: in place where the key is, else last.
pub open spec fn set_entry(es: Seq<(Seq<char>, JsonView)>, key: Seq<char>, value: JsonView) -> Seq<(Seq<char>, JsonView)> {
    if exists|i: int| 0 <= i < es.len() && es[i].0 == key {
        let i = choose|i: int| 0 <= i < es.len() && es[i].0 == key;
        es.update(i, (key, value))
    } else {
        es.push((key, value))
    }
}

/// The headers object of a request: each header set in turn, a repeated
/// name keeping its first place and its last value.
pub open spec fn header_entries(hs: Seq<(String, String)>) -> Seq<(Seq<char>, JsonView)>
    decreases hs.len(),
{
    if hs.len() == 0 {
        Seq::empty()
    } else {
        set_entry(
            header_entries(hs.drop_last()),
            hs.last().0@,
            JsonView::Str(hs.last().1@),
        )
    }
}

/// The metadata of a request's message.
pub open spec fn request_metadata(
    method: Seq<char>,
    path: Seq<char>,
    headers: Seq<(String, String)>,
    now: Seq<char>,
) -> JsonView {
    JsonView::Object(
        seq![
            ("source"@, JsonView::Str("http"@)),
            ("method"@, JsonView::Str(method)),
            ("path"@, JsonView::Str(path)),
            ("headers"@, JsonView::Object(header_entries(headers))),
            ("timestamp"@, JsonView::Str(now)),
        ],
    )
}

/// Whether `method` is among `allowed`.
pub open spec fn method_allowed(allowed: Seq<String>, method: Seq<char>) -> bool {
    exists|i: int| 0 <= i < allowed.len() && allowed[i]@ == method
}

/// Whether `method` is among `allowed`.
fn is_allowed(allowed: &Vec<String>, method: &str) -> (r: bool)
    ensures
        r == method_allowed(allowed@, method@),
{
    let mut i: usize = 0;
    while i < allowed.len()
        invariant
            i <= allowed@.len(),
            forall|k: int| 0 <= k < i ==> allowed@[k]@ != method@,
        decreases allowed@.len() - i,
    {
        if str_eq(allowed[i].as_str(), method) {
            return true;
        }
        i = i + 1;
    }
    false
}

/// `{"raw": text}`.
fn raw_json(text: String) -> (r: Json)
    ensures
        r.view_json() == raw_object(text@),
{
    let r = Json::Object(vec![(owned("raw"), Json::Str(text))]);
    proof {
        reveal_strlit("raw");
        lemma_entries_view_matches(r->Object_0@, seq![("raw"@, JsonView::Str(text@))]);
    }
    r
}

/// The payload of a request.
fn payload_of(method: &str, query: &str, body: &[u8]) -> (r: Json)
    ensures
        r.view_json() == request_payload(method@, query@, body@),
{
    if str_eq(method, "GET") {
        match read_query(query) {
            Some(v) => value_of(&v),
            None => raw_json(owned(query)),
        }
    } else if str_eq(method, "POST") {
        match read_json_bytes(body) {
            Some(v) => value_of(&v),
            None => raw_json(lossy_text(body)),
        }
    } else {
        let r = Json::Object(Vec::new());
        proof {
            lemma_entries_view_matches(r->Object_0@, Seq::empty());
        }
        r
    }
}

/// Setting a key in entries whose keys are distinct keeps them distinct.
proof fn lemma_set_entry_distinct(es: Seq<(Seq<char>, JsonView)>, key: Seq<char>, value: JsonView)
    requires
        keys_distinct(es),
    ensures
        keys_distinct(set_entry(es, key, value)),
{
}

/// The headers object, entry by entry.
fn headers_json(headers: &Vec<(String, String)>) -> (r: Vec<(String, Json)>)
    ensures
        entries_view(r@) == header_entries(headers@),
{
    let mut out: Vec<(String, Json)> = Vec::new();
    let mut i: usize = 0;
    while i < headers.len()
        invariant
            i <= headers@.len(),
            out@.len() == header_entries(headers@.take(i as int)).len(),
            keys_distinct(header_entries(headers@.take(i as int))),
            forall|k: int|
                0 <= k < out@.len() ==> (#[trigger] out@[k]).0@ == header_entries(
                    headers@.take(i as int),
                )[k].0 && out@[k].1.view_json() == header_entries(headers@.take(i as int))[k].1,
        decreases headers@.len() - i,
    {
        let ghost before = header_entries(headers@.take(i as int));
        let (name, value) = &headers[i];
        assert(headers@.take(i + 1).drop_last() =~= headers@.take(i as int));
        assert(headers@.take(i + 1).last() == headers@[i as int]);
        let ghost after = header_entries(headers@.take(i + 1));
        assert(after == set_entry(before, name@, JsonView::Str(value@)));
        proof {
            lemma_set_entry_distinct(before, name@, JsonView::Str(value@));
        }
        let mut j: usize = 0;
        let mut found = false;
        while j < out.len()
            invariant_except_break
                j <= out@.len(),
                !found,
                forall|k: int| 0 <= k < j ==> (#[trigger] out@[k]).0@ != name@,
            invariant
                out@.len() == before.len(),
                forall|k: int|
                    0 <= k < out@.len() ==> (#[trigger] out@[k]).0@ == before[k].0 && out@[k].1.view_json()
                        == before[k].1,
            ensures
                found ==> j < out@.len() && out@[j as int].0@ == name@,
                !found ==> forall|k: int| 0 <= k < out@.len() ==> (#[trigger] out@[k]).0@ != name@,
            decreases out@.len() - j,
        {
            if str_eq(out[j].0.as_str(), name.as_str()) {
                found = true;
                break;
            }
            j = j + 1;
        }
        if found {
            proof {
                assert(before[j as int].0 == name@);
                let c = choose|c: int| 0 <= c < before.len() && before[c].0 == name@;
                assert(c == j as int);
            }
            out.set(j, (owned(name.as_str()), Json::Str(owned(value.as_str()))));
        } else {
            proof {
                assert(!exists|c: int| 0 <= c < before.len() && before[c].0 == name@) by {
                    if exists|c: int| 0 <= c < before.len() && before[c].0 == name@ {
                        let c = choose|c: int| 0 <= c < before.len() && before[c].0 == name@;
                        assert(out@[c].0@ != name@);
                    }
                }
            }
            out.push((owned(name.as_str()), Json::Str(owned(value.as_str()))));
        }
        i = i + 1;
    }
    assert(headers@.take(headers@.len() as int) =~= headers@);
    proof {
        lemma_entries_view_matches(out@, header_entries(headers@));
    }
    out
}

/// The metadata of a request's message.
fn metadata_of(method: &str, path: &str, headers: &Vec<(String, String)>, now: &str) -> (r: Json)
    ensures
        r.view_json() == request_metadata(method@, path@, headers@, now@),
        r is Object,
{
    let hs = headers_json(headers);
    let r = Json::Object(
        vec![
            (owned("source"), Json::Str(owned("http"))),
            (owned("method"), Json::Str(owned(method))),
            (owned("path"), Json::Str(owned(path))),
            (owned("headers"), Json::Object(hs)),
            (owned("timestamp"), Json::Str(owned(now))),
        ],
    );
    proof {
        let target = seq![
            ("source"@, JsonView::Str("http"@)),
            ("method"@, JsonView::Str(method@)),
            ("path"@, JsonView::Str(path@)),
            ("headers"@, JsonView::Object(header_entries(headers@))),
            ("timestamp"@, JsonView::Str(now@)),
        ];
        lemma_entries_view_matches(r->Object_0@, target);
    }
    r
}

/// What the HTTP source makes of a request to `path` with `method`: `404`
/// when the path is not the configured one, `405` when the method is not
/// allowed; otherwise a message whose payload is the request's (a `GET`'s
/// query, a `POST`'s body) and whose metadata records the source, method,
/// path, headers and `now`, with empty `data` and `temp_data`.
pub fn http_source_message(
    path_cfg: &str,
    allowed: &Vec<String>,
    method: &str,
    path: &str,
    query: &str,
    body: &[u8],
    headers: &Vec<(String, String)>,
    now: &str,
) -> (r: Result<Message, u16>)
    ensures
        path@ != path_cfg@ ==> r == Err::<Message, u16>(404),
        path@ == path_cfg@ && !method_allowed(allowed@, method@) ==> r == Err::<Message, u16>(405),
        path@ == path_cfg@ && method_allowed(allowed@, method@) ==> (r matches Ok(m) && {
            &&& m.payload_value().view_json() == request_payload(method@, query@, body@)
            &&& exists|meta: Json|
                meta.view_json() == request_metadata(method@, path@, headers@, now@)
                    && is_context_from(m.ctx(), None, Some(meta), None)
            &&& m.id_wf()
            &&& m.trail().len() == 0
            &&& m.recorded_errors().len() == 0
            &&& m.captures()
        }),
{
    if !str_eq(path, path_cfg) {
        return Err(404);
    }
    if !is_allowed(allowed, method) {
        return Err(405);
    }
    let payload = payload_of(method, query, body);
    let metadata = metadata_of(method, path, headers, now);
    let ghost meta = metadata;
    let m = Message::builder().payload(payload).metadata(metadata).build();
    assert(is_context_from(m.ctx(), None, Some(meta), None));
    Ok(m)
}

} // verus!

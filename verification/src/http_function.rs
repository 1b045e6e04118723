//! The HTTP function: what a request is made of, read from the task's
//! input, and what the response leaves on the message.
//!
//! Sending the request is the transport's work; the library reads the URL,
//! method, headers and body to send, and records the response's status and
//! body, read as JSON when it is JSON, under `temp_data`.

use vstd::prelude::*;
use crate::error::DataflowError;
use crate::json::{Json, JsonView, Number};
use crate::map::{write_at, written};
use crate::message::{Change, Message};
use crate::reading::{json_read, lemma_entries_view_matches, parse_json_text, reads_json};
use crate::text::{owned, str_eq};

verus! {

/// The URL a request goes to: the input's `url`, which must be a string.
pub fn http_request_url(input: &Json) -> (r: Result<String, DataflowError>)
    ensures
        match input.field("url"@) {
            Some(Json::Str(u)) => r matches Ok(s) && s@ == u@,
            _ => r matches Err(DataflowError::Validation(m)) && m@ == "URL is required"@,
        },
{
    match input.get("url") {
        Some(Json::Str(u)) => Ok(owned(u.as_str())),
        _ => Err(DataflowError::Validation(owned("URL is required"))),
    }
}

/// The method a request is made with: the input's `method` when it is a
/// string, else `GET`.
pub fn http_request_method(input: &Json) -> (r: String)
    ensures
        r@ == match input.field("method"@) {
            Some(Json::Str(m)) => m@,
            _ => "GET"@,
        },
{
    match input.get("method") {
        Some(Json::Str(m)) => owned(m.as_str()),
        _ => owned("GET"),
    }
}

/// Whether a request made with `method` carries a body: any method but
/// `GET` and `HEAD`.
pub fn method_sends_body(method: &str) -> (r: bool)
    ensures
        r == !(method@ == "GET"@ || method@ == "HEAD"@),
{
    !(str_eq(method, "GET") || str_eq(method, "HEAD"))
}

/// The string-valued entries of an object, in order.
pub open spec fn string_entries(es: Seq<(String, Json)>) -> Seq<(Seq<char>, Seq<char>)>
    decreases es.len(),
{
    if es.len() == 0 {
        Seq::empty()
    } else {
        let rest = string_entries(es.drop_last());
        match es.last().1 {
            Json::Str(v) => rest.push((es.last().0@, v@)),
            _ => rest,
        }
    }
}

/// The headers a request carries: the input's `headers` object's entries
/// whose values are strings, in order; none when there is no such object.
pub fn http_request_headers(input: &Json) -> (r: Vec<(String, String)>)
    ensures
        r@.map_values(|h: (String, String)| (h.0@, h.1@)) == match input.field("headers"@) {
            Some(Json::Object(es)) => string_entries(es@),
            _ => Seq::empty(),
        },
{
    let mut out: Vec<(String, String)> = Vec::new();
    match input.get("headers") {
        Some(Json::Object(es)) => {
            let mut i: usize = 0;
            assert(es@.take(0) =~= Seq::<(String, Json)>::empty());
            while i < es.len()
                invariant
                    i <= es@.len(),
                    out@.map_values(|h: (String, String)| (h.0@, h.1@)) == string_entries(
                        es@.take(i as int),
                    ),
                decreases es@.len() - i,
            {
                let ghost before = out@;
                assert(es@.take(i + 1).drop_last() =~= es@.take(i as int));
                assert(es@.take(i + 1).last() == es@[i as int]);
                match &es[i].1 {
                    Json::Str(v) => {
                        out.push((owned(es[i].0.as_str()), owned(v.as_str())));
                        assert(out@.map_values(|h: (String, String)| (h.0@, h.1@)) =~= before.map_values(
                            |h: (String, String)| (h.0@, h.1@),
                        ).push((es@[i as int].0@, v@)));
                    },
                    _ => {},
                }
                i = i + 1;
            }
            assert(es@.take(es@.len() as int) =~= es@);
        },
        _ => {
            assert(out@.map_values(|h: (String, String)| (h.0@, h.1@)) =~= Seq::<(Seq<char>, Seq<char>)>::empty());
        },
    }
    out
}

/// The body a request made with `method` carries: the input's `body`, when
/// there is one and the method carries a body.
pub fn http_request_body(input: &Json, method: &str) -> (r: Option<Json>)
    ensures
        match input.field("body"@) {
            Some(b) => if method@ == "GET"@ || method@ == "HEAD"@ {
                r is None
            } else {
                r matches Some(j) && j.view_json() == b.view_json()
            },
            None => r is None,
        },
{
    match input.get("body") {
        Some(b) => if method_sends_body(method) {
            Some(b.copy())
        } else {
            None
        },
        None => None,
    }
}

/// What a response's body is recorded as: the JSON it reads as, else the
/// text itself.
pub open spec fn response_body(body: Seq<char>) -> JsonView {
    if reads_json(body) {
        json_read(body)
    } else {
        JsonView::Str(body)
    }
}

/// The record a response leaves under `temp_data`.
pub open spec fn response_record(status: u16, body: Seq<char>) -> JsonView {
    JsonView::Object(
        seq![
            ("body"@, response_body(body)),
            ("status"@, JsonView::Int(status as int)),
            ("success"@, JsonView::Bool(200 <= status < 300)),
        ],
    )
}

/// The record a response with `status` and the text `body` leaves under
/// `temp_data`: the body (read as JSON when it is JSON), the status, and
/// whether the status is a success (`2xx`).
pub fn http_response_temp_data(status: u16, body: &str) -> (r: Json)
    ensures
        r.view_json() == response_record(status, body@),
{
    let b = match parse_json_text(body) {
        Some(j) => j,
        None => Json::Str(owned(body)),
    };
    let r = Json::Object(
        vec![
            (owned("body"), b),
            (owned("status"), Json::Num(Number::Int(status as i64))),
            (owned("success"), Json::Bool(200 <= status && status < 300)),
        ],
    );
    proof {
        lemma_entries_view_matches(r->Object_0@, response_record(status, body@)->Object_0);
    }
    r
}

/// Record a response on the message: `temp_data` becomes the response's
/// record, and the status is the response's; the change is recorded from
/// `null`.
pub fn http_response_apply(message: &mut Message, status: u16, body: &str) -> (r: (usize, Vec<Change>))
    ensures
        r.0 == status,
        final(message).ctx().view_json() == written(
            old(message).ctx().view_json(),
            seq!["temp_data"@],
            response_record(status, body@),
        ),
        r.1@.len() == 1,
        r.1@[0].path@ == "temp_data"@,
        r.1@[0].old_value == Json::Null,
        r.1@[0].new_value.view_json() == response_record(status, body@),
        final(message).payload_value() == old(message).payload_value(),
        final(message).recorded_errors() == old(message).recorded_errors(),
        final(message).trail() == old(message).trail(),
{
    let record = http_response_temp_data(status, body);
    let mut changes: Vec<Change> = Vec::new();
    changes.push(Change { path: owned("temp_data"), old_value: Json::Null, new_value: record.copy() });
    let parts: Vec<String> = vec![owned("temp_data")];
    assert(parts@.map_values(|p: String| p@) =~= seq!["temp_data"@]);
    let mut ctx = message.context().copy();
    write_at(&mut ctx, &parts, record);
    message.replace_context(ctx);
    (status as usize, changes)
}

} // verus!

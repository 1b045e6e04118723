//! Reading the inputs of the integration built-ins (`http_call`, `enrich`,
//! `publish_kafka`) from their authored JSON.
//!
//! Each input is an object whose keys are all known; every parameter is a
//! template over any JSON, and an optional one that is absent or `null` is
//! not set. A parameter with an older spelling may be given under either
//! name, not both.

use vstd::prelude::*;
use crate::error::DataflowError;
use crate::integration::{
    DEFAULT_TIMEOUT_MS, EnrichConfig, EnrichErrorAction, HttpCallConfig, HttpMethod,
    PublishKafkaConfig,
};
use crate::json::{Json, JsonView, Number};
use crate::template::Template;
use crate::text::{owned, push_str, str_eq};

verus! {

/// Which input is read.
#[derive(Clone, Copy)]
pub enum InputKind {
    HttpCall,
    Enrich,
    PublishKafka,
}

/// Whether `k` is a key the input of `kind` knows.
pub open spec fn known_key(kind: InputKind, k: Seq<char>) -> bool {
    match kind {
        InputKind::HttpCall => k == "connector"@ || k == "method"@ || k == "path"@ || k
            == "path_logic"@ || k == "headers"@ || k == "body"@ || k == "body_logic"@ || k
            == "body_format"@ || k == "response_path"@ || k == "output"@ || k
            == "response_format"@ || k == "timeout_ms"@,
        InputKind::Enrich => k == "connector"@ || k == "method"@ || k == "path"@ || k
            == "path_logic"@ || k == "merge_path"@ || k == "timeout_ms"@ || k == "on_error"@,
        InputKind::PublishKafka => k == "connector"@ || k == "topic"@ || k == "key"@ || k
            == "key_logic"@ || k == "value"@ || k == "value_logic"@,
    }
}

/// Whether `k` is a key the input of `kind` knows.
fn is_known_key(kind: InputKind, k: &str) -> (r: bool)
    ensures
        r == known_key(kind, k@),
{
    match kind {
        InputKind::HttpCall => str_eq(k, "connector") || str_eq(k, "method") || str_eq(k, "path")
            || str_eq(k, "path_logic") || str_eq(k, "headers") || str_eq(k, "body") || str_eq(
            k,
            "body_logic",
        ) || str_eq(k, "body_format") || str_eq(k, "response_path") || str_eq(k, "output")
            || str_eq(k, "response_format") || str_eq(k, "timeout_ms"),
        InputKind::Enrich => str_eq(k, "connector") || str_eq(k, "method") || str_eq(k, "path")
            || str_eq(k, "path_logic") || str_eq(k, "merge_path") || str_eq(k, "timeout_ms")
            || str_eq(k, "on_error"),
        InputKind::PublishKafka => str_eq(k, "connector") || str_eq(k, "topic") || str_eq(k, "key")
            || str_eq(k, "key_logic") || str_eq(k, "value") || str_eq(k, "value_logic"),
    }
}

/// The first key among `entries` that the input of `kind` does not know.
pub open spec fn first_unknown(entries: Seq<(String, Json)>, kind: InputKind) -> Option<Seq<char>>
    decreases entries.len(),
{
    if entries.len() == 0 {
        None
    } else if known_key(kind, entries[0].0@) {
        first_unknown(entries.drop_first(), kind)
    } else {
        Some(entries[0].0@)
    }
}

/// The first unknown key from `i` on is the first unknown key of the
/// entries from `i` on.
proof fn lemma_first_unknown_step(entries: Seq<(String, Json)>, kind: InputKind, i: int)
    requires
        0 <= i < entries.len(),
    ensures
        first_unknown(entries.subrange(i, entries.len() as int), kind) == if known_key(
            kind,
            entries[i].0@,
        ) {
            first_unknown(entries.subrange(i + 1, entries.len() as int), kind)
        } else {
            Some(entries[i].0@)
        },
{
    let rest = entries.subrange(i, entries.len() as int);
    assert(rest.drop_first() =~= entries.subrange(i + 1, entries.len() as int));
}

/// The first key of `entries` the input of `kind` does not know.
fn find_unknown(entries: &Vec<(String, Json)>, kind: InputKind) -> (r: Option<String>)
    ensures
        match r {
            Some(k) => first_unknown(entries@, kind) == Some(k@),
            None => first_unknown(entries@, kind) is None,
        },
{
    let mut i: usize = 0;
    assert(entries@.subrange(0, entries@.len() as int) =~= entries@);
    while i < entries.len()
        invariant
            i <= entries@.len(),
            first_unknown(entries@, kind) == first_unknown(
                entries@.subrange(i as int, entries@.len() as int),
                kind,
            ),
        decreases entries@.len() - i,
    {
        proof {
            lemma_first_unknown_step(entries@, kind, i as int);
        }
        let key = entries[i].0.as_str();
        if !is_known_key(kind, key) {
            return Some(owned(key));
        }
        i = i + 1;
    }
    assert(entries@.subrange(i as int, entries@.len() as int) =~= Seq::<(String, Json)>::empty());
    None
}

/// The parameters of the input of `kind`, by their names, as listed in a
/// refusal.
pub open spec fn expected_fields(kind: InputKind) -> Seq<char> {
    match kind {
        InputKind::HttpCall => "`connector`, `method`, `path`, `headers`, `body`, `body_format`, `response_path`, `response_format`, `timeout_ms`"@,
        InputKind::Enrich => "`connector`, `method`, `path`, `merge_path`, `timeout_ms`, `on_error`"@,
        InputKind::PublishKafka => "`connector`, `topic`, `key`, `value`"@,
    }
}

/// The parameters of the input of `kind`, as listed in a refusal.
fn expected_fields_text(kind: InputKind) -> (r: &'static str)
    ensures
        r@ == expected_fields(kind),
{
    match kind {
        InputKind::HttpCall => "`connector`, `method`, `path`, `headers`, `body`, `body_format`, `response_path`, `response_format`, `timeout_ms`",
        InputKind::Enrich => "`connector`, `method`, `path`, `merge_path`, `timeout_ms`, `on_error`",
        InputKind::PublishKafka => "`connector`, `topic`, `key`, `value`",
    }
}

/// The message for a key the input of `kind` does not know.
pub open spec fn unknown_field_message(kind: InputKind, k: Seq<char>) -> Seq<char> {
    "unknown field `"@ + k + "`, expected one of "@ + expected_fields(kind)
}

/// The message for a parameter given under both its names.
pub open spec fn duplicate_field_message(k: Seq<char>) -> Seq<char> {
    "duplicate field `"@ + k + "`"@
}

/// The message for a required parameter that is absent.
pub open spec fn missing_field_message(k: Seq<char>) -> Seq<char> {
    "missing field `"@ + k + "`"@
}

/// The message for a required parameter that is absent.
fn missing(key: &str) -> (r: String)
    ensures
        r@ == missing_field_message(key@),
{
    let mut m = owned("missing field `");
    push_str(&mut m, key);
    push_str(&mut m, "`");
    m
}

/// The message for an input that is not an object.
pub open spec fn not_a_map_message() -> Seq<char> {
    "invalid type, expected a map"@
}

/// The message for a method that names none.
pub open spec fn method_message() -> Seq<char> {
    "unknown variant for `method`, expected `GET`, `POST`, `PUT`, `PATCH` or `DELETE`"@
}

/// The message for `headers` that are not an object.
pub open spec fn headers_message() -> Seq<char> {
    "invalid type for `headers`, expected a map"@
}

/// The message for an `on_error` that names no action.
pub open spec fn on_error_message() -> Seq<char> {
    "unknown variant for `on_error`, expected `fail` or `skip`"@
}

/// An optional parameter as read: absent or `null` is not set.
pub open spec fn opt_of(v: Option<Json>) -> Option<JsonView> {
    match v {
        None => None,
        Some(Json::Null) => None,
        Some(x) => Some(x.view_json()),
    }
}

/// An optional parameter that may also be given under `alias`.
pub open spec fn aliased_of(input: Json, key: Seq<char>, alias: Seq<char>) -> Result<
    Option<JsonView>,
    Seq<char>,
> {
    if input.field(key) is Some && input.field(alias) is Some {
        Err(duplicate_field_message(key))
    } else if input.field(key) is Some {
        Ok(opt_of(input.field(key)))
    } else {
        Ok(opt_of(input.field(alias)))
    }
}

/// The view of an optional template: its authored JSON.
pub open spec fn opt_view(t: Option<Template>) -> Option<JsonView> {
    match t {
        Some(t) => Some(t.raw().view_json()),
        None => None,
    }
}

/// The method an authored `method` names: `GET` when absent.
pub open spec fn method_of(v: Option<Json>) -> Option<HttpMethod> {
    match v {
        None => Some(HttpMethod::Get),
        Some(Json::Str(s)) => if s@ == "GET"@ {
            Some(HttpMethod::Get)
        } else if s@ == "POST"@ {
            Some(HttpMethod::Post)
        } else if s@ == "PUT"@ {
            Some(HttpMethod::Put)
        } else if s@ == "PATCH"@ {
            Some(HttpMethod::Patch)
        } else if s@ == "DELETE"@ {
            Some(HttpMethod::Delete)
        } else {
            None
        },
        Some(_) => None,
    }
}

/// The action an authored `on_error` names: `fail` when absent.
pub open spec fn on_error_of(v: Option<Json>) -> Option<EnrichErrorAction> {
    match v {
        None => Some(EnrichErrorAction::Fail),
        Some(Json::Str(s)) => if s@ == "fail"@ {
            Some(EnrichErrorAction::Fail)
        } else if s@ == "skip"@ {
            Some(EnrichErrorAction::Skip)
        } else {
            None
        },
        Some(_) => None,
    }
}

/// The timeout an authored `timeout_ms` gives: the default when absent.
pub open spec fn timeout_of(v: Option<Json>) -> JsonView {
    match v {
        None => JsonView::Int(DEFAULT_TIMEOUT_MS as int),
        Some(x) => x.view_json(),
    }
}

/// The views of header pairs.
pub open spec fn headers_view(hs: Seq<(String, Template)>) -> Seq<(Seq<char>, JsonView)> {
    hs.map_values(|h: (String, Template)| (h.0@, h.1.raw().view_json()))
}

/// The views of object entries.
pub open spec fn pairs_view(es: Seq<(String, Json)>) -> Seq<(Seq<char>, JsonView)> {
    es.map_values(|e: (String, Json)| (e.0@, e.1.view_json()))
}

/// The headers an authored `headers` gives: none when absent; an object's
/// entries in order.
pub open spec fn headers_of(v: Option<Json>) -> Option<Seq<(Seq<char>, JsonView)>> {
    match v {
        None => Some(Seq::empty()),
        Some(Json::Object(es)) => Some(pairs_view(es@)),
        Some(_) => None,
    }
}

/// Read an optional parameter.
fn read_opt(v: Option<&Json>) -> (r: Option<Template>)
    ensures
        opt_view(r) == opt_of(
            match v {
                Some(j) => Some(*j),
                None => None,
            },
        ),
{
    match v {
        None => None,
        Some(Json::Null) => None,
        Some(x) => Some(Template::new(x.copy())),
    }
}

/// Read an optional parameter that may also be given under `alias`.
fn read_aliased(input: &Json, key: &str, alias: &str) -> (r: Result<Option<Template>, String>)
    ensures
        match r {
            Ok(t) => aliased_of(*input, key@, alias@) == Ok::<Option<JsonView>, Seq<char>>(
                opt_view(t),
            ),
            Err(m) => aliased_of(*input, key@, alias@) == Err::<Option<JsonView>, Seq<char>>(m@),
        },
{
    match (input.get(key), input.get(alias)) {
        (Some(_), Some(_)) => {
            let mut m = owned("duplicate field `");
            push_str(&mut m, key);
            push_str(&mut m, "`");
            Err(m)
        },
        (Some(v), None) => Ok(read_opt(Some(v))),
        (None, v) => Ok(read_opt(v)),
    }
}

/// Read a method by name.
fn read_method(v: Option<&Json>) -> (r: Option<HttpMethod>)
    ensures
        r == method_of(
            match v {
                Some(j) => Some(*j),
                None => None,
            },
        ),
{
    match v {
        None => Some(HttpMethod::Get),
        Some(Json::Str(s)) => {
            let t = s.as_str();
            if str_eq(t, "GET") {
                Some(HttpMethod::Get)
            } else if str_eq(t, "POST") {
                Some(HttpMethod::Post)
            } else if str_eq(t, "PUT") {
                Some(HttpMethod::Put)
            } else if str_eq(t, "PATCH") {
                Some(HttpMethod::Patch)
            } else if str_eq(t, "DELETE") {
                Some(HttpMethod::Delete)
            } else {
                None
            }
        },
        Some(_) => None,
    }
}

/// Read the timeout.
fn read_timeout(v: Option<&Json>) -> (r: Template)
    ensures
        r.raw().view_json() == timeout_of(
            match v {
                Some(j) => Some(*j),
                None => None,
            },
        ),
{
    match v {
        None => Template::new(Json::Num(Number::UInt(DEFAULT_TIMEOUT_MS))),
        Some(x) => Template::new(x.copy()),
    }
}

/// Read the headers.
fn read_headers(v: Option<&Json>) -> (r: Option<Vec<(String, Template)>>)
    ensures
        match r {
            Some(hs) => headers_of(
                match v {
                    Some(j) => Some(*j),
                    None => None,
                },
            ) == Some(headers_view(hs@)),
            None => headers_of(
                match v {
                    Some(j) => Some(*j),
                    None => None,
                },
            ) is None,
        },
{
    match v {
        None => {
            let hs: Vec<(String, Template)> = Vec::new();
            assert(headers_view(hs@) =~= Seq::<(Seq<char>, JsonView)>::empty());
            Some(hs)
        },
        Some(Json::Object(es)) => {
            let mut hs: Vec<(String, Template)> = Vec::new();
            let mut i: usize = 0;
            while i < es.len()
                invariant
                    i <= es@.len(),
                    headers_view(hs@) =~= pairs_view(es@).subrange(0, i as int),
                decreases es@.len() - i,
            {
                let (k, x) = &es[i];
                let ghost before = hs@;
                hs.push((owned(k.as_str()), Template::new(x.copy())));
                assert(headers_view(hs@) =~= headers_view(before).push((k@, x.view_json())));
                assert(pairs_view(es@).subrange(0, i + 1) =~= pairs_view(es@).subrange(0, i as int).push(
                    pairs_view(es@)[i as int],
                ));
                i = i + 1;
            }
            assert(pairs_view(es@).subrange(0, i as int) =~= pairs_view(es@));
            Some(hs)
        },
        Some(_) => None,
    }
}

/// The input of `kind`'s first refusal common to every integration: not an
/// object, or a key it does not know.
pub open spec fn shape_refusal(input: Json, kind: InputKind) -> Option<Seq<char>> {
    match input {
        Json::Object(es) => match first_unknown(es@, kind) {
            Some(k) => Some(unknown_field_message(kind, k)),
            None => None,
        },
        _ => Some(not_a_map_message()),
    }
}

/// Check an input's shape.
fn check_shape(input: &Json, kind: InputKind) -> (r: Option<String>)
    ensures
        match r {
            Some(m) => shape_refusal(*input, kind) == Some(m@),
            None => shape_refusal(*input, kind) is None,
        },
{
    match input {
        Json::Object(es) => match find_unknown(es, kind) {
            Some(k) => {
                let mut m = owned("unknown field `");
                push_str(&mut m, k.as_str());
                push_str(&mut m, "`, expected one of ");
                push_str(&mut m, expected_fields_text(kind));
                Some(m)
            },
            None => None,
        },
        _ => Some(owned("invalid type, expected a map")),
    }
}

/// An `http_call` input as plain values.
pub struct HttpCallView {
    pub connector: JsonView,
    pub method: HttpMethod,
    pub path: Option<JsonView>,
    pub headers: Seq<(Seq<char>, JsonView)>,
    pub body: Option<JsonView>,
    pub body_format: Option<JsonView>,
    pub response_path: Option<JsonView>,
    pub response_format: Option<JsonView>,
    pub timeout_ms: JsonView,
}

impl HttpCallConfig {
    /// The config as plain values.
    pub open spec fn view_config(self) -> HttpCallView {
        HttpCallView {
            connector: self.connector.raw().view_json(),
            method: self.method,
            path: opt_view(self.path),
            headers: headers_view(self.headers@),
            body: opt_view(self.body),
            body_format: opt_view(self.body_format),
            response_path: opt_view(self.response_path),
            response_format: opt_view(self.response_format),
            timeout_ms: self.timeout_ms.raw().view_json(),
        }
    }
}

/// What an `http_call` input reads as, or the first refusal: the shape,
/// the method, the headers, the aliased parameters in their order, and the
/// required `connector`.
pub open spec fn http_call_of(input: Json) -> Result<HttpCallView, Seq<char>> {
    match shape_refusal(input, InputKind::HttpCall) {
        Some(m) => Err(m),
        None => match method_of(input.field("method"@)) {
            None => Err(method_message()),
            Some(method) => match headers_of(input.field("headers"@)) {
                None => Err(headers_message()),
                Some(headers) => match aliased_of(input, "path"@, "path_logic"@) {
                    Err(m) => Err(m),
                    Ok(path) => match aliased_of(input, "body"@, "body_logic"@) {
                        Err(m) => Err(m),
                        Ok(body) => match aliased_of(input, "response_path"@, "output"@) {
                            Err(m) => Err(m),
                            Ok(response_path) => match input.field("connector"@) {
                                None => Err(missing_field_message("connector"@)),
                                Some(c) => Ok(
                                    HttpCallView {
                                        connector: c.view_json(),
                                        method,
                                        path,
                                        headers,
                                        body,
                                        body_format: opt_of(input.field("body_format"@)),
                                        response_path,
                                        response_format: opt_of(input.field("response_format"@)),
                                        timeout_ms: timeout_of(input.field("timeout_ms"@)),
                                    },
                                ),
                            },
                        },
                    },
                },
            },
        },
    }
}

/// The result of a reading step, as a config's error.
fn refused<T>(m: String) -> (r: Result<T, DataflowError>)
    ensures
        r matches Err(DataflowError::Validation(t)) && t@ == m@,
{
    Err(DataflowError::Validation(m))
}

/// Whether `r` is what a reader gives for the plain outcome `of`: the
/// config whose view it is, or the refusal as a `Validation` error.
pub open spec fn read_as<C, V>(r: Result<C, DataflowError>, of: Result<V, Seq<char>>, view: spec_fn(C) -> V) -> bool {
    match of {
        Ok(v) => r matches Ok(c) && view(c) == v,
        Err(m) => r matches Err(DataflowError::Validation(t)) && t@ == m,
    }
}

impl HttpCallConfig {
    /// Read an `http_call` input. Nothing is compiled.
    pub fn from_json(input: &Json) -> (r: Result<HttpCallConfig, DataflowError>)
        ensures
            read_as(r, http_call_of(*input), |c: HttpCallConfig| c.view_config()),
    {
        if let Some(m) = check_shape(input, InputKind::HttpCall) {
            return refused(m);
        }
        let method = match read_method(input.get("method")) {
            Some(m) => m,
            None => {
                return refused(
                    owned(
                        "unknown variant for `method`, expected `GET`, `POST`, `PUT`, `PATCH` or `DELETE`",
                    ),
                );
            },
        };
        let headers = match read_headers(input.get("headers")) {
            Some(h) => h,
            None => {
                return refused(owned("invalid type for `headers`, expected a map"));
            },
        };
        let path = match read_aliased(input, "path", "path_logic") {
            Ok(t) => t,
            Err(m) => {
                return refused(m);
            },
        };
        let body = match read_aliased(input, "body", "body_logic") {
            Ok(t) => t,
            Err(m) => {
                return refused(m);
            },
        };
        let response_path = match read_aliased(input, "response_path", "output") {
            Ok(t) => t,
            Err(m) => {
                return refused(m);
            },
        };
        let connector = match input.get("connector") {
            Some(c) => Template::new(c.copy()),
            None => {
                return refused(missing("connector"));
            },
        };
        Ok(
            HttpCallConfig {
                connector,
                method,
                path,
                headers,
                body,
                body_format: read_opt(input.get("body_format")),
                response_path,
                response_format: read_opt(input.get("response_format")),
                timeout_ms: read_timeout(input.get("timeout_ms")),
            },
        )
    }
}

/// An `enrich` input as plain values.
pub struct EnrichView {
    pub connector: JsonView,
    pub method: HttpMethod,
    pub path: Option<JsonView>,
    pub merge_path: JsonView,
    pub timeout_ms: JsonView,
    pub on_error: EnrichErrorAction,
}

impl EnrichConfig {
    /// The config as plain values.
    pub open spec fn view_config(self) -> EnrichView {
        EnrichView {
            connector: self.connector.raw().view_json(),
            method: self.method,
            path: opt_view(self.path),
            merge_path: self.merge_path.raw().view_json(),
            timeout_ms: self.timeout_ms.raw().view_json(),
            on_error: self.on_error,
        }
    }
}

/// What an `enrich` input reads as, or the first refusal: the shape, the
/// method, `on_error`, the aliased path, then the required `connector` and
/// `merge_path`.
pub open spec fn enrich_of(input: Json) -> Result<EnrichView, Seq<char>> {
    match shape_refusal(input, InputKind::Enrich) {
        Some(m) => Err(m),
        None => match method_of(input.field("method"@)) {
            None => Err(method_message()),
            Some(method) => match on_error_of(input.field("on_error"@)) {
                None => Err(on_error_message()),
                Some(on_error) => match aliased_of(input, "path"@, "path_logic"@) {
                    Err(m) => Err(m),
                    Ok(path) => match input.field("connector"@) {
                        None => Err(missing_field_message("connector"@)),
                        Some(c) => match input.field("merge_path"@) {
                            None => Err(missing_field_message("merge_path"@)),
                            Some(mp) => Ok(
                                EnrichView {
                                    connector: c.view_json(),
                                    method,
                                    path,
                                    merge_path: mp.view_json(),
                                    timeout_ms: timeout_of(input.field("timeout_ms"@)),
                                    on_error,
                                },
                            ),
                        },
                    },
                },
            },
        },
    }
}

/// Read an `on_error` by name.
fn read_on_error(v: Option<&Json>) -> (r: Option<EnrichErrorAction>)
    ensures
        r == on_error_of(
            match v {
                Some(j) => Some(*j),
                None => None,
            },
        ),
{
    match v {
        None => Some(EnrichErrorAction::Fail),
        Some(Json::Str(s)) => if str_eq(s.as_str(), "fail") {
            Some(EnrichErrorAction::Fail)
        } else if str_eq(s.as_str(), "skip") {
            Some(EnrichErrorAction::Skip)
        } else {
            None
        },
        Some(_) => None,
    }
}

impl EnrichConfig {
    /// Read an `enrich` input. Nothing is compiled.
    pub fn from_json(input: &Json) -> (r: Result<EnrichConfig, DataflowError>)
        ensures
            read_as(r, enrich_of(*input), |c: EnrichConfig| c.view_config()),
    {
        if let Some(m) = check_shape(input, InputKind::Enrich) {
            return refused(m);
        }
        let method = match read_method(input.get("method")) {
            Some(m) => m,
            None => {
                return refused(
                    owned(
                        "unknown variant for `method`, expected `GET`, `POST`, `PUT`, `PATCH` or `DELETE`",
                    ),
                );
            },
        };
        let on_error = match read_on_error(input.get("on_error")) {
            Some(a) => a,
            None => {
                return refused(owned("unknown variant for `on_error`, expected `fail` or `skip`"));
            },
        };
        let path = match read_aliased(input, "path", "path_logic") {
            Ok(t) => t,
            Err(m) => {
                return refused(m);
            },
        };
        let connector = match input.get("connector") {
            Some(c) => Template::new(c.copy()),
            None => {
                return refused(missing("connector"));
            },
        };
        let merge_path = match input.get("merge_path") {
            Some(c) => Template::new(c.copy()),
            None => {
                return refused(missing("merge_path"));
            },
        };
        Ok(
            EnrichConfig {
                connector,
                method,
                path,
                merge_path,
                timeout_ms: read_timeout(input.get("timeout_ms")),
                on_error,
            },
        )
    }
}

/// A `publish_kafka` input as plain values.
pub struct PublishKafkaView {
    pub connector: JsonView,
    pub topic: JsonView,
    pub key: Option<JsonView>,
    pub value: Option<JsonView>,
}

impl PublishKafkaConfig {
    /// The config as plain values.
    pub open spec fn view_config(self) -> PublishKafkaView {
        PublishKafkaView {
            connector: self.connector.raw().view_json(),
            topic: self.topic.raw().view_json(),
            key: opt_view(self.key),
            value: opt_view(self.value),
        }
    }
}

/// What a `publish_kafka` input reads as, or the first refusal: the shape,
/// the aliased `key` and `value`, then the required `connector` and
/// `topic`.
pub open spec fn publish_kafka_of(input: Json) -> Result<PublishKafkaView, Seq<char>> {
    match shape_refusal(input, InputKind::PublishKafka) {
        Some(m) => Err(m),
        None => match aliased_of(input, "key"@, "key_logic"@) {
            Err(m) => Err(m),
            Ok(key) => match aliased_of(input, "value"@, "value_logic"@) {
                Err(m) => Err(m),
                Ok(value) => match input.field("connector"@) {
                    None => Err(missing_field_message("connector"@)),
                    Some(c) => match input.field("topic"@) {
                        None => Err(missing_field_message("topic"@)),
                        Some(t) => Ok(
                            PublishKafkaView {
                                connector: c.view_json(),
                                topic: t.view_json(),
                                key,
                                value,
                            },
                        ),
                    },
                },
            },
        },
    }
}

impl PublishKafkaConfig {
    /// Read a `publish_kafka` input. Nothing is compiled.
    pub fn from_json(input: &Json) -> (r: Result<PublishKafkaConfig, DataflowError>)
        ensures
            read_as(r, publish_kafka_of(*input), |c: PublishKafkaConfig| c.view_config()),
    {
        if let Some(m) = check_shape(input, InputKind::PublishKafka) {
            return refused(m);
        }
        let key = match read_aliased(input, "key", "key_logic") {
            Ok(t) => t,
            Err(m) => {
                return refused(m);
            },
        };
        let value = match read_aliased(input, "value", "value_logic") {
            Ok(t) => t,
            Err(m) => {
                return refused(m);
            },
        };
        let connector = match input.get("connector") {
            Some(c) => Template::new(c.copy()),
            None => {
                return refused(missing("connector"));
            },
        };
        let topic = match input.get("topic") {
            Some(c) => Template::new(c.copy()),
            None => {
                return refused(missing("topic"));
            },
        };
        Ok(PublishKafkaConfig { connector, topic, key, value })
    }
}

} // verus!

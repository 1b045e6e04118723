//! The vocabulary of the integration built-ins (`http_call`, `enrich`,
//! `publish_kafka`), whose transport a host supplies through a handler.

use vstd::prelude::*;
use crate::error::DataflowError;
use crate::json::Json;
use crate::logic::{Evaluated, LogicEngine};
use crate::template::{Template, eval_into_not_compiled_message, evaluates_to, resolves_to};
use crate::text::owned;

verus! {

/// HTTP methods supported by `http_call`.
///
/// The transport is supplied by the service layer, so every consumer
/// converts this into its own client's method type; [`HttpMethod::as_str`]
/// is the bridge.
#[derive(Debug, Clone, Copy, PartialEq, Eq, Hash, Structural)]
pub enum HttpMethod {
    Get,
    Post,
    Put,
    Patch,
    Delete,
}

impl HttpMethod {
    /// Every method a workflow may name in an `http_call` task. Not a
    /// general list of HTTP methods.
    pub const ALL: [HttpMethod; 5] = [
        HttpMethod::Get,
        HttpMethod::Post,
        HttpMethod::Put,
        HttpMethod::Patch,
        HttpMethod::Delete,
    ];

    /// The canonical uppercase token.
    pub open spec fn token(self) -> Seq<char> {
        match self {
            HttpMethod::Get => "GET"@,
            HttpMethod::Post => "POST"@,
            HttpMethod::Put => "PUT"@,
            HttpMethod::Patch => "PATCH"@,
            HttpMethod::Delete => "DELETE"@,
        }
    }

    /// Whether re-sending the request is safe (RFC 9110 idempotency).
    pub open spec fn idempotent(self) -> bool {
        match self {
            HttpMethod::Get | HttpMethod::Put | HttpMethod::Delete => true,
            HttpMethod::Post | HttpMethod::Patch => false,
        }
    }

    /// Canonical uppercase token, the spelling a workflow names the method
    /// by.
    pub fn as_str(&self) -> (r: &'static str)
        ensures
            r@ == self.token(),
    {
        match self {
            HttpMethod::Get => "GET",
            HttpMethod::Post => "POST",
            HttpMethod::Put => "PUT",
            HttpMethod::Patch => "PATCH",
            HttpMethod::Delete => "DELETE",
        }
    }

    /// Whether re-sending the request is safe, so a caller may retry a
    /// timeout without risking a duplicate side effect.
    pub fn is_idempotent(&self) -> (r: bool)
        ensures
            r == self.idempotent(),
    {
        match self {
            HttpMethod::Get | HttpMethod::Put | HttpMethod::Delete => true,
            HttpMethod::Post | HttpMethod::Patch => false,
        }
    }

    /// The method as text: its token.
    pub fn to_string(&self) -> (r: String)
        ensures
            r@ == self.token(),
    {
        owned(self.as_str())
    }
}

impl Default for HttpMethod {
    fn default() -> (r: HttpMethod)
        ensures
            r == HttpMethod::Get,
    {
        HttpMethod::Get
    }
}

/// The method an `http_call` or `enrich` task uses when it names none.
pub fn default_method() -> (r: HttpMethod)
    ensures
        r == HttpMethod::Get,
{
    HttpMethod::Get
}

/// The `timeout_ms` default.
pub const DEFAULT_TIMEOUT_MS: u64 = 30000;

/// What to do when enrichment fails.
#[derive(Debug, Clone, Copy, PartialEq, Eq, Structural)]
pub enum EnrichErrorAction {
    /// Fail the task (the default).
    Fail,
    /// Skip enrichment and continue.
    Skip,
}

impl Default for EnrichErrorAction {
    fn default() -> (r: EnrichErrorAction)
        ensures
            r == EnrichErrorAction::Fail,
    {
        EnrichErrorAction::Fail
    }
}

/// Configuration for `http_call`. Every parameter is a template; the
/// transport that sends the request is the host's.
#[derive(Debug)]
pub struct HttpCallConfig {
    /// The connector the request goes through.
    pub connector: Template,
    pub method: HttpMethod,
    /// The request path.
    pub path: Option<Template>,
    /// Header names and their values, in authored order.
    pub headers: Vec<(String, Template)>,
    /// The request body.
    pub body: Option<Template>,
    pub body_format: Option<Template>,
    /// Where the response is written.
    pub response_path: Option<Template>,
    pub response_format: Option<Template>,
    pub timeout_ms: Template,
}

/// Configuration for `enrich`: a request whose response is merged into the
/// message.
#[derive(Debug)]
pub struct EnrichConfig {
    pub connector: Template,
    pub method: HttpMethod,
    pub path: Option<Template>,
    /// Where the response is merged.
    pub merge_path: Template,
    pub timeout_ms: Template,
    pub on_error: EnrichErrorAction,
}

/// Configuration for `publish_kafka`.
#[derive(Debug)]
pub struct PublishKafkaConfig {
    pub connector: Template,
    pub topic: Template,
    pub key: Option<Template>,
    /// The record's value, handed on whole.
    pub value: Option<Template>,
}

/// What resolving an optional parameter gives: nothing for an absent one,
/// else what resolving its template gives.
pub open spec fn opt_resolves_to(field: Option<Template>, r: Result<Option<String>, DataflowError>) -> bool {
    match field {
        None => r matches Ok(None),
        Some(t) => match r {
            Ok(Some(s)) => resolves_to(t, Ok(s)),
            Ok(None) => false,
            Err(e) => resolves_to(t, Err(e)),
        },
    }
}

/// What evaluating an optional parameter into a value gives: nothing for an
/// absent one, else what evaluating its template gives.
pub open spec fn opt_evaluates_to(field: Option<Template>, r: Result<Option<Evaluated>, DataflowError>) -> bool {
    match field {
        None => r matches Ok(None),
        Some(t) => match r {
            Ok(Some(v)) => evaluates_to(t, Ok::<Evaluated, DataflowError>(v), eval_into_not_compiled_message()),
            Ok(None) => false,
            Err(e) => evaluates_to(t, Err::<Evaluated, DataflowError>(e), eval_into_not_compiled_message()),
        },
    }
}

/// An optional parameter as plain text.
fn resolve_opt_string(field: &Option<Template>, engine: &LogicEngine, context: &Json) -> (r: Result<
    Option<String>,
    DataflowError,
>)
    ensures
        opt_resolves_to(*field, r),
{
    match field {
        None => Ok(None),
        Some(t) => match t.resolve_string(engine, context) {
            Ok(s) => Ok(Some(s)),
            Err(e) => Err(e),
        },
    }
}

/// An optional parameter evaluated into a value.
fn resolve_opt_value(field: &Option<Template>, engine: &LogicEngine, context: &Json) -> (r: Result<
    Option<Evaluated>,
    DataflowError,
>)
    ensures
        opt_evaluates_to(*field, r),
{
    match field {
        None => Ok(None),
        Some(t) => match t.eval_into(engine, context) {
            Ok(v) => Ok(Some(v)),
            Err(e) => Err(e),
        },
    }
}

/// What resolving every header gives: each name with its value's plain
/// text, in order; or the error of the first header that fails, every one
/// before it having resolved.
pub open spec fn headers_resolve_to(
    headers: Seq<(String, Template)>,
    r: Result<Vec<(String, String)>, DataflowError>,
) -> bool {
    match r {
        Ok(v) => v@.len() == headers.len() && forall|i: int|
            0 <= i < headers.len() ==> (#[trigger] v@[i]).0@ == headers[i].0@ && resolves_to(
                headers[i].1,
                Ok(v@[i].1),
            ),
        Err(e) => exists|i: int|
            0 <= i < headers.len() && #[trigger] resolves_to(headers[i].1, Err(e)) && resolve_before(
                headers,
                i,
            ),
    }
}

/// Whether each of the first `n` headers resolves to some text.
pub open spec fn resolve_before(headers: Seq<(String, Template)>, n: int) -> bool {
    forall|j: int| 0 <= j < n ==> resolves_to_some(#[trigger] headers[j].1)
}

/// Whether a template resolves to some text.
pub open spec fn resolves_to_some(t: Template) -> bool {
    exists|s: String| resolves_to(t, Ok::<String, DataflowError>(s))
}

impl HttpCallConfig {
    /// The connector's name for this message.
    pub fn resolve_connector(&self, engine: &LogicEngine, context: &Json) -> (r: Result<String, DataflowError>)
        ensures
            resolves_to(self.connector, r),
    {
        self.connector.resolve_string(engine, context)
    }

    /// The request path for this message, when there is one.
    pub fn resolve_path(&self, engine: &LogicEngine, context: &Json) -> (r: Result<
        Option<String>,
        DataflowError,
    >)
        ensures
            opt_resolves_to(self.path, r),
    {
        resolve_opt_string(&self.path, engine, context)
    }

    /// Every header's value as plain text, in order. A header that fails
    /// fails the call rather than being dropped.
    pub fn resolve_headers(&self, engine: &LogicEngine, context: &Json) -> (r: Result<
        Vec<(String, String)>,
        DataflowError,
    >)
        ensures
            headers_resolve_to(self.headers@, r),
    {
        let mut out: Vec<(String, String)> = Vec::new();
        let mut i: usize = 0;
        while i < self.headers.len()
            invariant
                i <= self.headers@.len(),
                out@.len() == i,
                forall|k: int|
                    0 <= k < i ==> (#[trigger] out@[k]).0@ == self.headers@[k].0@ && resolves_to(
                        self.headers@[k].1,
                        Ok(out@[k].1),
                    ),
            decreases self.headers@.len() - i,
        {
            let (name, value) = &self.headers[i];
            match value.resolve_string(engine, context) {
                Ok(text) => {
                    out.push((owned(name.as_str()), text));
                },
                Err(e) => {
                    assert(resolve_before(self.headers@, i as int)) by {
                        assert forall|j: int| 0 <= j < i implies resolves_to_some(
                            #[trigger] self.headers@[j].1,
                        ) by {
                            let s = out@[j].1;
                            assert(resolves_to(self.headers@[j].1, Ok::<String, DataflowError>(s)));
                        }
                    }
                    let ghost r: Result<Vec<(String, String)>, DataflowError> = Err(e);
                    assert(resolves_to(self.headers@[i as int].1, Err(e)));
                    assert(headers_resolve_to(self.headers@, r));
                    return Err(e);
                },
            }
            i = i + 1;
        }
        Ok(out)
    }

    /// The request body for this message, when there is one.
    pub fn resolve_body(&self, engine: &LogicEngine, context: &Json) -> (r: Result<
        Option<Evaluated>,
        DataflowError,
    >)
        ensures
            opt_evaluates_to(self.body, r),
    {
        resolve_opt_value(&self.body, engine, context)
    }

    pub fn resolve_body_format(&self, engine: &LogicEngine, context: &Json) -> (r: Result<
        Option<String>,
        DataflowError,
    >)
        ensures
            opt_resolves_to(self.body_format, r),
    {
        resolve_opt_string(&self.body_format, engine, context)
    }

    pub fn resolve_response_path(&self, engine: &LogicEngine, context: &Json) -> (r: Result<
        Option<String>,
        DataflowError,
    >)
        ensures
            opt_resolves_to(self.response_path, r),
    {
        resolve_opt_string(&self.response_path, engine, context)
    }

    pub fn resolve_response_format(&self, engine: &LogicEngine, context: &Json) -> (r: Result<
        Option<String>,
        DataflowError,
    >)
        ensures
            opt_resolves_to(self.response_format, r),
    {
        resolve_opt_string(&self.response_format, engine, context)
    }
}

impl EnrichConfig {
    pub fn resolve_connector(&self, engine: &LogicEngine, context: &Json) -> (r: Result<String, DataflowError>)
        ensures
            resolves_to(self.connector, r),
    {
        self.connector.resolve_string(engine, context)
    }

    pub fn resolve_path(&self, engine: &LogicEngine, context: &Json) -> (r: Result<
        Option<String>,
        DataflowError,
    >)
        ensures
            opt_resolves_to(self.path, r),
    {
        resolve_opt_string(&self.path, engine, context)
    }

    /// Where the response is merged, for this message.
    pub fn resolve_merge_path(&self, engine: &LogicEngine, context: &Json) -> (r: Result<String, DataflowError>)
        ensures
            resolves_to(self.merge_path, r),
    {
        self.merge_path.resolve_string(engine, context)
    }
}

impl PublishKafkaConfig {
    pub fn resolve_connector(&self, engine: &LogicEngine, context: &Json) -> (r: Result<String, DataflowError>)
        ensures
            resolves_to(self.connector, r),
    {
        self.connector.resolve_string(engine, context)
    }

    /// The topic for this message.
    pub fn resolve_topic(&self, engine: &LogicEngine, context: &Json) -> (r: Result<String, DataflowError>)
        ensures
            resolves_to(self.topic, r),
    {
        self.topic.resolve_string(engine, context)
    }

    pub fn resolve_key(&self, engine: &LogicEngine, context: &Json) -> (r: Result<
        Option<String>,
        DataflowError,
    >)
        ensures
            opt_resolves_to(self.key, r),
    {
        resolve_opt_string(&self.key, engine, context)
    }

    /// The record's value for this message, handed on whole.
    pub fn resolve_value(&self, engine: &LogicEngine, context: &Json) -> (r: Result<
        Option<Evaluated>,
        DataflowError,
    >)
        ensures
            opt_evaluates_to(self.value, r),
    {
        resolve_opt_value(&self.value, engine, context)
    }
}

/// The method tokens are pairwise distinct, so a token names one method.
pub proof fn lemma_tokens_are_distinct(a: HttpMethod, b: HttpMethod)
    ensures
        a.token() == b.token() ==> a == b,
{
    reveal_strlit("GET");
    reveal_strlit("POST");
    reveal_strlit("PUT");
    reveal_strlit("PATCH");
    reveal_strlit("DELETE");
    if a != b {
        assert(a.token().len() != b.token().len() || a.token()[1] != b.token()[1]);
    }
}

} // verus!

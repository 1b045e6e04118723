//! The engine's error channel, [`DataflowError`], and the structured record
//! of a failure kept on a message, [`ErrorInfo`].

use vstd::prelude::*;
use crate::text::{decimal, owned, push_decimal, push_str};

verus! {

/// The standard library's I/O error.
#[verifier::external_type_specification]
#[verifier::external_body]
pub struct ExIoError(std::io::Error);

/// The JSON reader's error.
#[verifier::external_type_specification]
#[verifier::external_body]
pub struct ExSerdeJsonError(serde_json::Error);

/// Main error type for the dataflow engine.
#[derive(Debug)]
#[non_exhaustive]
pub enum DataflowError {
    /// Validation errors occurring during rule evaluation.
    Validation(String),
    /// Errors during function execution, with the error that caused them.
    FunctionExecution { context: String, source: Option<Box<DataflowError>> },
    /// Workflow-related errors.
    Workflow(String),
    /// Task-related errors.
    Task(String),
    /// Function not found errors.
    FunctionNotFound(String),
    /// JSON serialization/deserialization errors.
    Deserialization(String),
    /// I/O errors.
    Io(String),
    /// JSONLogic evaluation errors.
    LogicEvaluation(String),
    /// HTTP request errors.
    Http { status: u16, message: String },
    /// Timeout errors.
    Timeout(String),
    /// Any other errors.
    Unknown(String),
    /// A failure the service layer classifies itself. The engine never
    /// interprets `kind`; `message` is caller-safe text and `detail` is
    /// operator-only.
    Service { kind: String, message: String, detail: Option<String>, retryable: bool },
}

/// The view of an optional string.
pub open spec fn opt_str_view(s: Option<String>) -> Option<Seq<char>> {
    match s {
        Some(s) => Some(s@),
        None => None,
    }
}

impl DataflowError {
    /// Whether retrying could help: a transient infrastructure failure.
    ///
    /// HTTP 5xx, 429, 408 and 0 (a connection error), timeouts and I/O
    /// errors are; a function-execution error is when its source is; a
    /// service error is when it declared so; every other variant is not.
    pub open spec fn is_retryable(self) -> bool
        decreases self,
    {
        match self {
            DataflowError::Http { status, .. } => status >= 500 || status == 429 || status == 408
                || status == 0,
            DataflowError::Timeout(_) => true,
            DataflowError::Io(_) => true,
            DataflowError::FunctionExecution { source, .. } => match source {
                Some(e) => (*e).is_retryable(),
                None => false,
            },
            DataflowError::Service { retryable, .. } => retryable,
            _ => false,
        }
    }

    /// The service-owned classification, `None` for every engine-owned
    /// variant.
    pub open spec fn kind_text(self) -> Option<Seq<char>> {
        match self {
            DataflowError::Service { kind, .. } => Some(kind@),
            _ => None,
        }
    }

    /// Operator-only detail of a service error.
    pub open spec fn detail_text(self) -> Option<Seq<char>> {
        match self {
            DataflowError::Service { detail, .. } => opt_str_view(detail),
            _ => None,
        }
    }

    /// The display text of the error. A service error shows its caller-safe
    /// message alone, never its detail.
    pub open spec fn describe(self) -> Seq<char> {
        match self {
            DataflowError::Validation(s) => "Validation error: "@ + s@,
            DataflowError::FunctionExecution { context, .. } => "Function execution error: "@
                + context@,
            DataflowError::Workflow(s) => "Workflow error: "@ + s@,
            DataflowError::Task(s) => "Task error: "@ + s@,
            DataflowError::FunctionNotFound(s) => "Function not found: "@ + s@,
            DataflowError::Deserialization(s) => "Deserialization error: "@ + s@,
            DataflowError::Io(s) => "IO error: "@ + s@,
            DataflowError::LogicEvaluation(s) => "Logic evaluation error: "@ + s@,
            DataflowError::Http { status, message } => "HTTP error: "@ + decimal(status as nat)
                + " - "@ + message@,
            DataflowError::Timeout(s) => "Timeout error: "@ + s@,
            DataflowError::Unknown(s) => "Unknown error: "@ + s@,
            DataflowError::Service { message, .. } => message@,
        }
    }

    /// A function execution error with context, caused by `source`.
    pub fn function_execution(context: &str, source: Option<DataflowError>) -> (r: DataflowError)
        ensures
            r matches DataflowError::FunctionExecution { context: c, source: s } && c@ == context@
                && match source {
                Some(e) => s == Some(Box::new(e)),
                None => s is None,
            },
    {
        let source = match source {
            Some(e) => Some(Box::new(e)),
            None => None,
        };
        DataflowError::FunctionExecution { context: owned(context), source }
    }

    /// An HTTP error.
    pub fn http(status: u16, message: &str) -> (r: DataflowError)
        ensures
            r matches DataflowError::Http { status: s, message: m } && s == status && m@
                == message@,
    {
        DataflowError::Http { status, message: owned(message) }
    }

    /// An I/O error, carrying the error's display text.
    pub fn from_io(err: std::io::Error) -> (r: DataflowError)
        ensures
            r is Io,
    {
        DataflowError::Io(io_error_text(&err))
    }

    /// A deserialization error, carrying the reader's display text.
    pub fn from_serde(err: serde_json::Error) -> (r: DataflowError)
        ensures
            r is Deserialization,
    {
        DataflowError::Deserialization(serde_error_text(&err))
    }

    /// Whether this error is worth retrying.
    pub fn retryable(&self) -> (r: bool)
        ensures
            r == self.is_retryable(),
        decreases self,
    {
        match self {
            DataflowError::Http { status, .. } => *status >= 500 || *status == 429 || *status == 408
                || *status == 0,
            DataflowError::Timeout(_) => true,
            DataflowError::Io(_) => true,
            DataflowError::FunctionExecution { source, .. } => match source {
                Some(e) => {
                    assert(decreases_to!(*self => self->source));
                    (**e).retryable()
                },
                None => false,
            },
            DataflowError::Service { retryable, .. } => *retryable,
            DataflowError::Validation(_) => false,
            DataflowError::LogicEvaluation(_) => false,
            DataflowError::Deserialization(_) => false,
            DataflowError::Workflow(_) => false,
            DataflowError::Task(_) => false,
            DataflowError::FunctionNotFound(_) => false,
            DataflowError::Unknown(_) => false,
        }
    }

    /// The service-owned classification, or `None` for every engine-owned
    /// variant.
    pub fn kind(&self) -> (r: Option<&str>)
        ensures
            match r {
                Some(k) => self.kind_text() == Some(k@),
                None => self.kind_text() is None,
            },
    {
        match self {
            DataflowError::Service { kind, .. } => Some(kind.as_str()),
            _ => None,
        }
    }

    /// Operator-only detail, if this is a service error carrying one.
    pub fn detail(&self) -> (r: Option<&str>)
        ensures
            match r {
                Some(d) => self.detail_text() == Some(d@),
                None => self.detail_text() is None,
            },
    {
        match self {
            DataflowError::Service { detail, .. } => match detail {
                Some(d) => Some(d.as_str()),
                None => None,
            },
            _ => None,
        }
    }

    /// Start building a service-classified error. Defaults: no detail, not
    /// retryable.
    pub fn service(kind: &str, message: &str) -> (b: ServiceErrorBuilder)
        ensures
            b.spec_kind() == kind@,
            b.spec_message() == message@,
            b.spec_detail() is None,
            !b.spec_retryable(),
    {
        ServiceErrorBuilder { kind: owned(kind), message: owned(message), detail: None, retryable: false }
    }

    /// The display text of the error.
    pub fn to_string(&self) -> (s: String)
        ensures
            s@ == self.describe(),
    {
        let mut s = String::new();
        match self {
            DataflowError::Validation(t) => {
                push_str(&mut s, "Validation error: ");
                push_str(&mut s, t.as_str());
            },
            DataflowError::FunctionExecution { context, .. } => {
                push_str(&mut s, "Function execution error: ");
                push_str(&mut s, context.as_str());
            },
            DataflowError::Workflow(t) => {
                push_str(&mut s, "Workflow error: ");
                push_str(&mut s, t.as_str());
            },
            DataflowError::Task(t) => {
                push_str(&mut s, "Task error: ");
                push_str(&mut s, t.as_str());
            },
            DataflowError::FunctionNotFound(t) => {
                push_str(&mut s, "Function not found: ");
                push_str(&mut s, t.as_str());
            },
            DataflowError::Deserialization(t) => {
                push_str(&mut s, "Deserialization error: ");
                push_str(&mut s, t.as_str());
            },
            DataflowError::Io(t) => {
                push_str(&mut s, "IO error: ");
                push_str(&mut s, t.as_str());
            },
            DataflowError::LogicEvaluation(t) => {
                push_str(&mut s, "Logic evaluation error: ");
                push_str(&mut s, t.as_str());
            },
            DataflowError::Http { status, message } => {
                push_str(&mut s, "HTTP error: ");
                push_decimal(&mut s, *status as u64);
                push_str(&mut s, " - ");
                push_str(&mut s, message.as_str());
            },
            DataflowError::Timeout(t) => {
                push_str(&mut s, "Timeout error: ");
                push_str(&mut s, t.as_str());
            },
            DataflowError::Unknown(t) => {
                push_str(&mut s, "Unknown error: ");
                push_str(&mut s, t.as_str());
            },
            DataflowError::Service { message, .. } => {
                push_str(&mut s, message.as_str());
            },
        }
        assert(s@ =~= self.describe());
        s
    }
}

/// The display text of an I/O error (`to_string`). Nothing is stated of
/// the text.
#[verifier::external_body]
fn io_error_text(err: &std::io::Error) -> String {
    err.to_string()
}

/// The display text of a JSON reader error (`to_string`). Nothing is
/// stated of the text.
#[verifier::external_body]
pub(crate) fn serde_error_text(err: &serde_json::Error) -> String {
    err.to_string()
}

/// Builder for [`DataflowError::Service`].
pub struct ServiceErrorBuilder {
    kind: String,
    message: String,
    detail: Option<String>,
    retryable: bool,
}

impl ServiceErrorBuilder {
    /// The kind the error will carry.
    pub closed spec fn spec_kind(self) -> Seq<char> {
        self.kind@
    }

    /// The caller-safe message the error will carry.
    pub closed spec fn spec_message(self) -> Seq<char> {
        self.message@
    }

    /// The operator-only detail the error will carry.
    pub closed spec fn spec_detail(self) -> Option<Seq<char>> {
        opt_str_view(self.detail)
    }

    /// Whether the error will be declared retryable.
    pub closed spec fn spec_retryable(self) -> bool {
        self.retryable
    }

    /// Attach operator-only detail.
    pub fn detail(self, detail: &str) -> (b: ServiceErrorBuilder)
        ensures
            b.spec_kind() == self.spec_kind(),
            b.spec_message() == self.spec_message(),
            b.spec_detail() == Some(detail@),
            b.spec_retryable() == self.spec_retryable(),
    {
        ServiceErrorBuilder { detail: Some(owned(detail)), ..self }
    }

    /// Declare retryability. Defaults to `false`.
    pub fn retryable(self, retryable: bool) -> (b: ServiceErrorBuilder)
        ensures
            b.spec_kind() == self.spec_kind(),
            b.spec_message() == self.spec_message(),
            b.spec_detail() == self.spec_detail(),
            b.spec_retryable() == retryable,
    {
        ServiceErrorBuilder { retryable, ..self }
    }

    /// The service error.
    pub fn build(self) -> (e: DataflowError)
        ensures
            e is Service,
            e.kind_text() == Some(self.spec_kind()),
            e.describe() == self.spec_message(),
            e.detail_text() == self.spec_detail(),
            e.is_retryable() == self.spec_retryable(),
    {
        DataflowError::Service {
            kind: self.kind,
            message: self.message,
            detail: self.detail,
            retryable: self.retryable,
        }
    }
}

/// The current time as an RFC 3339 string (`chrono::Utc::now().to_rfc3339()`).
/// The clock decides the text; nothing is stated of it.
#[verifier::external_body]
pub(crate) fn now_rfc3339() -> String {
    chrono::Utc::now().to_rfc3339()
}

/// Structured error information for error tracking in messages.
#[derive(Debug, Clone)]
#[non_exhaustive]
pub struct ErrorInfo {
    /// Error code (e.g. `WORKFLOW_ERROR`, `TASK_ERROR`, `VALIDATION_ERROR`).
    pub code: String,
    /// Human-readable error message.
    pub message: String,
    /// Optional path to the error location.
    pub path: Option<String>,
    /// ID of the workflow where the error occurred.
    pub workflow_id: Option<String>,
    /// ID of the task where the error occurred.
    pub task_id: Option<String>,
    /// Timestamp when the error occurred.
    pub timestamp: Option<String>,
    /// Whether a retry was attempted.
    pub retry_attempted: Option<bool>,
    /// Number of retries attempted.
    pub retry_count: Option<u32>,
    /// Operator-only detail lifted from a service error.
    pub detail: Option<String>,
}

/// The code recorded for an error: the service's own kind verbatim when it
/// is non-empty, otherwise `TASK_ERROR`.
pub open spec fn service_code(error: DataflowError) -> Seq<char> {
    match error.kind_text() {
        Some(k) => if k.len() > 0 {
            k
        } else {
            "TASK_ERROR"@
        },
        None => "TASK_ERROR"@,
    }
}

/// The code recorded for an error.
pub fn service_error_code(error: &DataflowError) -> (r: String)
    ensures
        r@ == service_code(*error),
{
    match error.kind() {
        Some(k) => if k.unicode_len() > 0 {
            owned(k)
        } else {
            owned("TASK_ERROR")
        },
        None => owned("TASK_ERROR"),
    }
}

/// The code [`ErrorInfo::new`] records for each kind of error.
pub open spec fn error_code(error: DataflowError) -> Seq<char> {
    match error {
        DataflowError::Validation(_) => "VALIDATION_ERROR"@,
        DataflowError::Workflow(_) => "WORKFLOW_ERROR"@,
        DataflowError::Task(_) => "TASK_ERROR"@,
        DataflowError::FunctionNotFound(_) => "FUNCTION_NOT_FOUND"@,
        DataflowError::FunctionExecution { .. } => "FUNCTION_ERROR"@,
        DataflowError::LogicEvaluation(_) => "LOGIC_ERROR"@,
        DataflowError::Http { .. } => "HTTP_ERROR"@,
        DataflowError::Timeout(_) => "TIMEOUT_ERROR"@,
        DataflowError::Io(_) => "IO_ERROR"@,
        DataflowError::Deserialization(_) => "DESERIALIZATION_ERROR"@,
        DataflowError::Unknown(_) => "UNKNOWN_ERROR"@,
        DataflowError::Service { .. } => service_code(error),
    }
}

impl ErrorInfo {
    /// A record of `error` in the workflow and task given, stamped now,
    /// with no retry attempted yet.
    pub fn new(workflow_id: Option<String>, task_id: Option<String>, error: DataflowError) -> (r:
        ErrorInfo)
        ensures
            r.code@ == error_code(error),
            r.message@ == error.describe(),
            opt_str_view(r.detail) == error.detail_text(),
            r.path is None,
            r.workflow_id == workflow_id,
            r.task_id == task_id,
            r.timestamp is Some,
            r.retry_attempted == Some(false),
            r.retry_count == Some(0u32),
    {
        let code = match &error {
            DataflowError::Validation(_) => owned("VALIDATION_ERROR"),
            DataflowError::Workflow(_) => owned("WORKFLOW_ERROR"),
            DataflowError::Task(_) => owned("TASK_ERROR"),
            DataflowError::FunctionNotFound(_) => owned("FUNCTION_NOT_FOUND"),
            DataflowError::FunctionExecution { .. } => owned("FUNCTION_ERROR"),
            DataflowError::LogicEvaluation(_) => owned("LOGIC_ERROR"),
            DataflowError::Http { .. } => owned("HTTP_ERROR"),
            DataflowError::Timeout(_) => owned("TIMEOUT_ERROR"),
            DataflowError::Io(_) => owned("IO_ERROR"),
            DataflowError::Deserialization(_) => owned("DESERIALIZATION_ERROR"),
            DataflowError::Unknown(_) => owned("UNKNOWN_ERROR"),
            DataflowError::Service { .. } => service_error_code(&error),
        };
        let detail = match error.detail() {
            Some(d) => Some(owned(d)),
            None => None,
        };
        ErrorInfo {
            code,
            detail,
            message: error.to_string(),
            path: None,
            workflow_id,
            task_id,
            timestamp: Some(now_rfc3339()),
            retry_attempted: Some(false),
            retry_count: Some(0),
        }
    }

    /// A record with just a code, a message and an optional path, stamped
    /// now.
    pub fn simple(code: String, message: String, path: Option<String>) -> (r: ErrorInfo)
        ensures
            r.code == code,
            r.message == message,
            r.path == path,
            r.workflow_id is None,
            r.task_id is None,
            r.timestamp is Some,
            r.retry_attempted is None,
            r.retry_count is None,
            r.detail is None,
    {
        ErrorInfo {
            code,
            message,
            path,
            workflow_id: None,
            task_id: None,
            timestamp: Some(now_rfc3339()),
            retry_attempted: None,
            retry_count: None,
            detail: None,
        }
    }

    /// As [`ErrorInfo::simple`], from borrowed text.
    pub fn simple_ref(code: &str, message: &str, path: Option<&str>) -> (r: ErrorInfo)
        ensures
            r.code@ == code@,
            r.message@ == message@,
            opt_str_view(r.path) == match path {
                Some(p) => Some(p@),
                None => None::<Seq<char>>,
            },
            r.workflow_id is None,
            r.task_id is None,
            r.timestamp is Some,
            r.retry_attempted is None,
            r.retry_count is None,
            r.detail is None,
    {
        let path = match path {
            Some(p) => Some(owned(p)),
            None => None,
        };
        ErrorInfo::simple(owned(code), owned(message), path)
    }

    /// Mark that one more retry was attempted. The count saturates at
    /// `u32::MAX`.
    pub fn with_retry(self) -> (r: ErrorInfo)
        ensures
            r.retry_attempted == Some(true),
            r.retry_count == Some(
                match self.retry_count {
                    Some(n) => if n < u32::MAX {
                        (n + 1) as u32
                    } else {
                        u32::MAX
                    },
                    None => 1u32,
                },
            ),
            r.code == self.code,
            r.message == self.message,
            r.path == self.path,
            r.workflow_id == self.workflow_id,
            r.task_id == self.task_id,
            r.timestamp == self.timestamp,
            r.detail == self.detail,
    {
        let count: u32 = match self.retry_count {
            Some(n) => if n < u32::MAX {
                n + 1
            } else {
                u32::MAX
            },
            None => 1,
        };
        ErrorInfo { retry_attempted: Some(true), retry_count: Some(count), ..self }
    }

    /// Start building a record with a code and a message.
    pub fn builder(code: &str, message: &str) -> (b: ErrorInfoBuilder)
        ensures
            b.pending().code@ == code@,
            b.pending().message@ == message@,
            b.pending().path is None,
            b.pending().workflow_id is None,
            b.pending().task_id is None,
            b.pending().timestamp is Some,
            b.pending().retry_attempted is None,
            b.pending().retry_count is None,
            b.pending().detail is None,
    {
        ErrorInfoBuilder::new(code, message)
    }
}

/// Builder for [`ErrorInfo`] with a fluent API.
pub struct ErrorInfoBuilder {
    info: ErrorInfo,
}

impl ErrorInfoBuilder {
    /// The record the builder holds so far.
    pub closed spec fn pending(self) -> ErrorInfo {
        self.info
    }

    /// A builder with the required fields, stamped now.
    pub fn new(code: &str, message: &str) -> (b: ErrorInfoBuilder)
        ensures
            b.pending().code@ == code@,
            b.pending().message@ == message@,
            b.pending().path is None,
            b.pending().workflow_id is None,
            b.pending().task_id is None,
            b.pending().timestamp is Some,
            b.pending().retry_attempted is None,
            b.pending().retry_count is None,
            b.pending().detail is None,
    {
        ErrorInfoBuilder {
            info: ErrorInfo {
                code: owned(code),
                message: owned(message),
                path: None,
                workflow_id: None,
                task_id: None,
                timestamp: Some(now_rfc3339()),
                retry_attempted: None,
                retry_count: None,
                detail: None,
            },
        }
    }

    /// Set the error path.
    pub fn path(self, path: &str) -> (b: ErrorInfoBuilder)
        ensures
            opt_str_view(b.pending().path) == Some(path@),
            b.pending() == (ErrorInfo { path: b.pending().path, ..self.pending() }),
    {
        ErrorInfoBuilder { info: ErrorInfo { path: Some(owned(path)), ..self.info } }
    }

    /// Set the workflow ID.
    pub fn workflow_id(self, id: &str) -> (b: ErrorInfoBuilder)
        ensures
            opt_str_view(b.pending().workflow_id) == Some(id@),
            b.pending() == (ErrorInfo { workflow_id: b.pending().workflow_id, ..self.pending() }),
    {
        ErrorInfoBuilder { info: ErrorInfo { workflow_id: Some(owned(id)), ..self.info } }
    }

    /// Set the task ID.
    pub fn task_id(self, id: &str) -> (b: ErrorInfoBuilder)
        ensures
            opt_str_view(b.pending().task_id) == Some(id@),
            b.pending() == (ErrorInfo { task_id: b.pending().task_id, ..self.pending() }),
    {
        ErrorInfoBuilder { info: ErrorInfo { task_id: Some(owned(id)), ..self.info } }
    }

    /// Set a custom timestamp.
    pub fn timestamp(self, timestamp: &str) -> (b: ErrorInfoBuilder)
        ensures
            opt_str_view(b.pending().timestamp) == Some(timestamp@),
            b.pending() == (ErrorInfo { timestamp: b.pending().timestamp, ..self.pending() }),
    {
        ErrorInfoBuilder { info: ErrorInfo { timestamp: Some(owned(timestamp)), ..self.info } }
    }

    /// Mark whether a retry was attempted.
    pub fn retry_attempted(self, attempted: bool) -> (b: ErrorInfoBuilder)
        ensures
            b.pending() == (ErrorInfo { retry_attempted: Some(attempted), ..self.pending() }),
    {
        ErrorInfoBuilder { info: ErrorInfo { retry_attempted: Some(attempted), ..self.info } }
    }

    /// Set the retry count.
    pub fn retry_count(self, count: u32) -> (b: ErrorInfoBuilder)
        ensures
            b.pending() == (ErrorInfo { retry_count: Some(count), ..self.pending() }),
    {
        ErrorInfoBuilder { info: ErrorInfo { retry_count: Some(count), ..self.info } }
    }

    /// Attach operator-only detail.
    pub fn detail(self, detail: &str) -> (b: ErrorInfoBuilder)
        ensures
            opt_str_view(b.pending().detail) == Some(detail@),
            b.pending() == (ErrorInfo { detail: b.pending().detail, ..self.pending() }),
    {
        ErrorInfoBuilder { info: ErrorInfo { detail: Some(owned(detail)), ..self.info } }
    }

    /// The record built so far.
    pub fn build(self) -> (r: ErrorInfo)
        ensures
            r == self.pending(),
    {
        self.info
    }
}

/// An HTTP error is worth retrying exactly when its status is a server
/// error (`5xx` and above), `429` (too many requests), `408` (request
/// timeout) or `0` (no connection).
pub proof fn lemma_http_retryable(status: u16, message: String)
    ensures
        (DataflowError::Http { status, message }).is_retryable() <==> (500 <= status
            || status == 429 || status == 408 || status == 0),
        500 <= status ==> (DataflowError::Http { status, message }).is_retryable(),
        400 <= status < 500 && status != 429 && status != 408 ==> !(DataflowError::Http {
            status,
            message,
        }).is_retryable(),
{
}

/// Timeouts and I/O failures are worth retrying; validation, logic,
/// deserialization and configuration failures are not.
pub proof fn lemma_error_kinds_retryable(m: String)
    ensures
        DataflowError::Timeout(m).is_retryable(),
        DataflowError::Io(m).is_retryable(),
        !DataflowError::Validation(m).is_retryable(),
        !DataflowError::LogicEvaluation(m).is_retryable(),
        !DataflowError::Deserialization(m).is_retryable(),
        !DataflowError::Workflow(m).is_retryable(),
        !DataflowError::Task(m).is_retryable(),
        !DataflowError::FunctionNotFound(m).is_retryable(),
        !DataflowError::Unknown(m).is_retryable(),
{
}

/// A function-execution error is worth retrying exactly when the error that
/// caused it is, and not when it has no cause; a service error exactly when
/// it declared so.
pub proof fn lemma_wrapped_and_service_retryable(
    context: String,
    source: DataflowError,
    kind: String,
    message: String,
    detail: Option<String>,
    retryable: bool,
)
    ensures
        (DataflowError::FunctionExecution { context, source: Some(Box::new(source)) }).is_retryable()
            == source.is_retryable(),
        !(DataflowError::FunctionExecution { context, source: None }).is_retryable(),
        (DataflowError::Service { kind, message, detail, retryable }).is_retryable() == retryable,
{
}

/// A service error's display text is its caller-safe message and nothing
/// else: the operator-only detail never shows, and its code is its own kind
/// whenever that is non-empty.
pub proof fn lemma_service_error_text(
    kind: String,
    message: String,
    detail: Option<String>,
    retryable: bool,
)
    ensures
        (DataflowError::Service { kind, message, detail, retryable }).describe() == message@,
        (DataflowError::Service { kind, message, detail, retryable }).describe()
            == (DataflowError::Service { kind, message, detail: None, retryable }).describe(),
        kind@.len() > 0 ==> error_code(DataflowError::Service { kind, message, detail, retryable })
            == kind@,
        kind@.len() == 0 ==> error_code(DataflowError::Service { kind, message, detail, retryable })
            == "TASK_ERROR"@,
{
}

} // verus!

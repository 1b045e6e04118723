//! The `log` built-in: its levels, and the line it emits.

use vstd::prelude::*;
use crate::json::Json;
use crate::logic::{Evaluated, LogicEngine, Logic, plain_text, plain_view, scalar_view};
use crate::message::Message;
use crate::error::DataflowError;
use crate::text::{joined_with, lemma_joined_with_push, owned, push_str, str_eq};

verus! {

/// Log levels the `log` function emits at.
#[derive(Debug, Clone, Copy, PartialEq, Eq, Structural)]
pub enum LogLevel {
    Trace,
    Debug,
    Info,
    Warn,
    Error,
}

impl Default for LogLevel {
    fn default() -> (r: LogLevel)
        ensures
            r == LogLevel::Info,
    {
        LogLevel::Info
    }
}

/// One expression of a log task, as evaluated for the message.
#[derive(Debug)]
pub enum Rendered {
    /// The result as plain text: a string's contents, anything else its
    /// compact JSON form.
    Text(String),
    /// Evaluation failed.
    Failed,
    /// The expression was never compiled.
    Uncompiled,
}

/// The text an expression contributes; `uncompiled` stands in for one that
/// was never compiled.
pub open spec fn rendered_text(r: Rendered, uncompiled: Seq<char>) -> Seq<char> {
    match r {
        Rendered::Text(t) => t@,
        Rendered::Failed => "<eval error>"@,
        Rendered::Uncompiled => uncompiled,
    }
}

/// The fields as `key=value` pairs joined by `, `.
pub open spec fn fields_text(fields: Seq<(String, Rendered)>) -> Seq<char>
    decreases fields.len(),
{
    if fields.len() == 0 {
        Seq::empty()
    } else {
        let before = fields_text(fields.drop_last());
        let sep = if fields.len() > 1 {
            ", "@
        } else {
            Seq::<char>::empty()
        };
        before + sep + fields.last().0@ + "="@ + rendered_text(fields.last().1, "<uncompiled>"@)
    }
}

/// The line a log task emits: the message, then the fields in brackets when
/// there are any.
pub open spec fn log_line_text(message: Rendered, fields: Seq<(String, Rendered)>) -> Seq<char> {
    let head = rendered_text(message, "<uncompiled message>"@);
    if fields.len() == 0 {
        head
    } else {
        head + " ["@ + fields_text(fields) + "]"@
    }
}

fn push_rendered(out: &mut String, r: &Rendered, uncompiled: &str)
    ensures
        final(out)@ == old(out)@ + rendered_text(*r, uncompiled@),
{
    match r {
        Rendered::Text(t) => push_str(out, t.as_str()),
        Rendered::Failed => push_str(out, "<eval error>"),
        Rendered::Uncompiled => push_str(out, uncompiled),
    }
}

/// The line a log task emits for its evaluated message and fields. A log
/// task never fails and never changes the message.
pub fn log_line(message: &Rendered, fields: &Vec<(String, Rendered)>) -> (r: String)
    ensures
        r@ == log_line_text(*message, fields@),
{
    let mut out = String::new();
    push_rendered(&mut out, message, "<uncompiled message>");
    if fields.len() == 0 {
        return out;
    }
    let ghost head = out@;
    push_str(&mut out, " [");
    let mut i: usize = 0;
    assert(fields@.take(0) =~= Seq::<(String, Rendered)>::empty());
    while i < fields.len()
        invariant
            i <= fields@.len(),
            out@ == head + " ["@ + fields_text(fields@.take(i as int)),
        decreases fields@.len() - i,
    {
        if i > 0 {
            push_str(&mut out, ", ");
        }
        push_str(&mut out, fields[i].0.as_str());
        push_str(&mut out, "=");
        push_rendered(&mut out, &fields[i].1, "<uncompiled>");
        assert(fields@.take(i + 1).drop_last() =~= fields@.take(i as int));
        assert(fields@.take(i + 1).last() == fields@[i as int]);
        i = i + 1;
    }
    push_str(&mut out, "]");
    assert(fields@.take(fields@.len() as int) =~= fields@);
    out
}

/// Configuration for the log function.
#[derive(Debug)]
pub struct LogConfig {
    /// The level to emit at.
    pub level: LogLevel,
    /// The expression producing the message.
    pub message: Json,
    /// Extra fields, each an expression.
    pub fields: Vec<(String, Json)>,
    /// The compiled message, once compiled.
    pub compiled_message: Option<Logic>,
    /// The compiled fields, once compiled; `None` for one that was not.
    pub compiled_fields: Vec<(String, Option<Logic>)>,
}

/// Whether a rendered part fits its compiled expression: a part is
/// `Uncompiled` exactly when there is no compiled expression, and a scalar
/// literal renders as its plain text.
pub open spec fn part_fits(compiled: Option<Logic>, part: Rendered) -> bool {
    &&& (part is Uncompiled) <==> (compiled is None)
    &&& match compiled {
        Some(l) => match scalar_view(l.source()) {
            Some(v) => part matches Rendered::Text(t) && t@ == plain_view(v),
            None => true,
        },
        None => true,
    }
}

/// How an evaluated part renders: its plain text, or `Failed` when the
/// evaluation failed.
pub open spec fn renders_as(outcome: Result<Evaluated, String>, part: Rendered) -> bool {
    match outcome {
        Ok(v) => part matches Rendered::Text(t) && t@ == plain_text(v),
        Err(_) => part is Failed,
    }
}

/// Render a compiled part, given what the engine gave for it.
pub fn rendered_from(outcome: Result<Evaluated, String>) -> (r: Rendered)
    ensures
        renders_as(outcome, r),
{
    match outcome {
        Ok(v) => Rendered::Text(v.plain_text()),
        Err(_) => Rendered::Failed,
    }
}

/// Render one expression for the message.
fn render(engine: &LogicEngine, compiled: &Option<Logic>, context: &Json) -> (r: Rendered)
    ensures
        part_fits(*compiled, r),
{
    match compiled {
        None => Rendered::Uncompiled,
        Some(logic) => rendered_from(engine.evaluate(logic, context)),
    }
}

/// The level an authored `level` names: `info` when absent, else one of
/// `trace`, `debug`, `info`, `warn`, `error` by name; nothing for anything
/// else.
pub open spec fn level_of(authored: Option<Json>) -> Option<LogLevel> {
    match authored {
        None => Some(LogLevel::Info),
        Some(Json::Str(s)) => if s@ == "trace"@ {
            Some(LogLevel::Trace)
        } else if s@ == "debug"@ {
            Some(LogLevel::Debug)
        } else if s@ == "info"@ {
            Some(LogLevel::Info)
        } else if s@ == "warn"@ {
            Some(LogLevel::Warn)
        } else if s@ == "error"@ {
            Some(LogLevel::Error)
        } else {
            None
        },
        Some(_) => None,
    }
}

/// Read a level by name.
fn read_level(authored: Option<&Json>) -> (r: Option<LogLevel>)
    ensures
        r == level_of(
            match authored {
                Some(j) => Some(*j),
                None => None,
            },
        ),
{
    match authored {
        None => Some(LogLevel::Info),
        Some(Json::Str(s)) => {
            let t = s.as_str();
            if str_eq(t, "trace") {
                Some(LogLevel::Trace)
            } else if str_eq(t, "debug") {
                Some(LogLevel::Debug)
            } else if str_eq(t, "info") {
                Some(LogLevel::Info)
            } else if str_eq(t, "warn") {
                Some(LogLevel::Warn)
            } else if str_eq(t, "error") {
                Some(LogLevel::Error)
            } else {
                None
            }
        },
        Some(_) => None,
    }
}

/// Whether `r` is what reading a `LogConfig` input from `input` gives.
pub open spec fn log_input_read(input: Json, r: Result<LogConfig, DataflowError>) -> bool {
    match level_of(input.field("level"@)) {
        None => r matches Err(DataflowError::Validation(m)) && m@
            == "unknown variant for `level`, expected `trace`, `debug`, `info`, `warn` or `error`"@,
        Some(level) => match input.field("message"@) {
            None => r matches Err(DataflowError::Validation(m)) && m@
                == "missing field `message`"@,
            Some(msg) => match input.field("fields"@) {
                None => r matches Ok(c) && c.level == level && c.message.view_json()
                    == msg.view_json() && c.fields@.len() == 0 && c.compiled_message is None
                    && c.compiled_fields@.len() == 0,
                Some(Json::Object(es)) => r matches Ok(c) && c.level == level
                    && c.message.view_json() == msg.view_json() && c.fields@.len() == es@.len()
                    && (forall|i: int|
                    0 <= i < es@.len() ==> (#[trigger] c.fields@[i]).0@ == es@[i].0@
                        && c.fields@[i].1.view_json() == es@[i].1.view_json())
                    && c.compiled_message is None && c.compiled_fields@.len() == 0,
                Some(_) => r matches Err(DataflowError::Validation(m)) && m@
                    == "invalid type for `fields`, expected a map"@,
            },
        },
    }
}

impl LogConfig {
    /// Read a log function's input: an optional `level` (`info` by
    /// default), a required `message` (any JSON) and optional `fields`, an
    /// object whose entries, in order, are the extra fields. Nothing is
    /// compiled.
    pub fn from_json(input: &Json) -> (r: Result<LogConfig, DataflowError>)
        ensures
            log_input_read(*input, r),
    {
        let level = match read_level(input.get("level")) {
            Some(l) => l,
            None => {
                return Err(
                    DataflowError::Validation(
                        owned(
                            "unknown variant for `level`, expected `trace`, `debug`, `info`, `warn` or `error`",
                        ),
                    ),
                );
            },
        };
        let message = match input.get("message") {
            Some(m) => m.copy(),
            None => {
                return Err(DataflowError::Validation(owned("missing field `message`")));
            },
        };
        let mut fields: Vec<(String, Json)> = Vec::new();
        match input.get("fields") {
            None => {},
            Some(Json::Object(es)) => {
                let mut i: usize = 0;
                while i < es.len()
                    invariant
                        i <= es@.len(),
                        fields@.len() == i,
                        forall|k: int|
                            0 <= k < i ==> (#[trigger] fields@[k]).0@ == es@[k].0@
                                && fields@[k].1.view_json() == es@[k].1.view_json(),
                    decreases es@.len() - i,
                {
                    let (k, v) = &es[i];
                    fields.push((owned(k.as_str()), v.copy()));
                    i = i + 1;
                }
            },
            Some(_) => {
                return Err(DataflowError::Validation(owned("invalid type for `fields`, expected a map")));
            },
        }
        Ok(LogConfig { level, message, fields, compiled_message: None, compiled_fields: Vec::new() })
    }
}

impl LogConfig {
    /// The line emitted for a message: the rendered message, then the
    /// rendered fields in brackets. Each expression renders as plain text,
    /// `<eval error>` when evaluation fails, and a placeholder when it was
    /// never compiled. Logging never fails and never changes the message.
    pub fn execute(&self, message: &Message, engine: &LogicEngine) -> (r: String)
        ensures
            exists|head: Rendered, parts: Seq<(String, Rendered)>|
                {
                    &&& part_fits(self.compiled_message, head)
                    &&& parts.len() == self.compiled_fields@.len()
                    &&& forall|i: int|
                        0 <= i < parts.len() ==> (#[trigger] parts[i]).0@ == self.compiled_fields@[i].0@
                            && part_fits(self.compiled_fields@[i].1, parts[i].1)
                    &&& r@ == log_line_text(head, parts)
                },
    {
        let head = render(engine, &self.compiled_message, message.context());
        let mut parts: Vec<(String, Rendered)> = Vec::new();
        let mut i: usize = 0;
        while i < self.compiled_fields.len()
            invariant
                i <= self.compiled_fields@.len(),
                parts@.len() == i,
                forall|k: int|
                    0 <= k < i ==> (#[trigger] parts@[k]).0@ == self.compiled_fields@[k].0@
                        && part_fits(self.compiled_fields@[k].1, parts@[k].1),
            decreases self.compiled_fields@.len() - i,
        {
            let part = render(engine, &self.compiled_fields[i].1, message.context());
            parts.push((owned(self.compiled_fields[i].0.as_str()), part));
            i = i + 1;
        }
        log_line(&head, &parts)
    }
}

/// The `key=value` text of each field, in order.
pub open spec fn field_texts(fields: Seq<(String, Rendered)>) -> Seq<Seq<char>> {
    fields.map_values(
        |f: (String, Rendered)| f.0@ + "="@ + rendered_text(f.1, "<uncompiled>"@),
    )
}

proof fn lemma_fields_text_joined(fields: Seq<(String, Rendered)>)
    ensures
        fields_text(fields) == joined_with(field_texts(fields), ", "@),
    decreases fields.len(),
{
    if fields.len() > 0 {
        let prefix = fields.drop_last();
        let last = fields.last();
        let t = last.0@ + "="@ + rendered_text(last.1, "<uncompiled>"@);
        lemma_fields_text_joined(prefix);
        assert(field_texts(fields) =~= field_texts(prefix).push(t));
        lemma_joined_with_push(field_texts(prefix), ", "@, t);
        if fields.len() == 1 {
            assert(fields_text(prefix) == Seq::<char>::empty());
            assert(fields_text(fields) =~= t);
        } else {
            assert(fields_text(fields) =~= joined_with(field_texts(prefix), ", "@) + ", "@ + t);
        }
    } else {
        assert(field_texts(fields) =~= Seq::<Seq<char>>::empty());
    }
}

/// A log line is the message's text, then, when there are fields, ` [`,
/// each field as `key=value` separated by `, `, and `]`. An expression that
/// failed shows as `<eval error>`.
pub proof fn lemma_log_line_shape(message: Rendered, fields: Seq<(String, Rendered)>)
    ensures
        fields.len() == 0 ==> log_line_text(message, fields) == rendered_text(
            message,
            "<uncompiled message>"@,
        ),
        fields.len() > 0 ==> log_line_text(message, fields) == rendered_text(
            message,
            "<uncompiled message>"@,
        ) + " ["@ + joined_with(field_texts(fields), ", "@) + "]"@,
        rendered_text(Rendered::Failed, "<uncompiled>"@) == "<eval error>"@,
{
    lemma_fields_text_joined(fields);
}

} // verus!

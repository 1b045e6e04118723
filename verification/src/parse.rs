//! The `parse_*` built-ins' configuration, and where they read from.
//!
//! A parse reads a named location and stores what it finds under
//! `data.{target}`. The location is `payload` for the whole payload,
//! `payload.<path>` for a field of it, `data.<path>` for a field of the
//! existing data, and anything else is a path into the whole context.

use vstd::prelude::*;
use crate::error::DataflowError;
use crate::json::{Json, JsonView};
use crate::logic::{LogicEngine, plain_text};
use crate::map::{write_at, written};
use crate::message::{Change, Message, root_field};
use crate::path_template::{DataRoot, PathRoot, PathTemplate, parts_of};
use crate::paths::{get_nested_value, nested};
use crate::reading::{
    json_read, parse_json_text, reads_json, reads_xml, xml_error_message, xml_read, xml_to_json,
};
use crate::template::{Template, literal_text, not_compiled_message};
use crate::text::{owned, push_str, str_eq, str_starts_with};

verus! {

/// Configuration for the parse functions. Both fields are JSONLogic
/// expressions that resolve, per message, to a location name.
#[derive(Debug)]
pub struct ParseConfig {
    /// The location to read: `payload`, `payload.<path>`, `data.<path>`, or
    /// a context path. It names a location, never reads one: `payload` is
    /// not in the context an expression sees.
    pub source: Template,
    /// The field under `data` that receives the result.
    pub target: PathTemplate<DataRoot>,
}

/// The value at `path` below `value`, `null` when nothing is there.
pub open spec fn or_null(found: Option<Json>) -> Json {
    match found {
        Some(v) => v,
        None => Json::Null,
    }
}

/// Whether `s` begins with `prefix`.
pub open spec fn has_prefix(s: Seq<char>, prefix: Seq<char>) -> bool {
    prefix.len() <= s.len() && s.take(prefix.len() as int) == prefix
}

/// What a parse reads from the location named `source`.
pub open spec fn parse_source(payload: Json, context: Json, source: Seq<char>) -> Json {
    if source == "payload"@ {
        payload
    } else if has_prefix(source, "payload."@) {
        or_null(nested(payload, source.skip(8)))
    } else if has_prefix(source, "data."@) {
        or_null(nested(root_field(context, "data"@), source.skip(5)))
    } else {
        or_null(nested(context, source))
    }
}

/// Whether `r` is what reading a `ParseConfig` input from `input` gives.
pub open spec fn parse_input_read(input: Json, r: Result<ParseConfig, DataflowError>) -> bool {
    match r {
        Ok(c) => input.field("source"@) is Some && input.field("target"@) is Some
            && c.source.raw().view_json() == input.field("source"@)->0.view_json()
            && c.target.template().raw().view_json() == input.field(
                "target"@,
            )->0.view_json() && !c.source.compiled() && !c.target.template().compiled()
            && c.target.destination() is None,
        Err(e) => if input.field("source"@) is None {
            e matches DataflowError::Validation(m) && m@ == "Missing 'source' in parse config"@
        } else {
            input.field("target"@) is None && (e matches DataflowError::Validation(m) && m@
                == "Missing 'target' in parse config"@)
        },
    }
}

impl ParseConfig {
    /// Read a parse config from its JSON input: `source` and `target` are
    /// required, and may be any JSON.
    pub fn from_json(input: &Json) -> (r: Result<ParseConfig, DataflowError>)
        ensures
            parse_input_read(*input, r),
    {
        let source = match input.get("source") {
            Some(v) => v.copy(),
            None => {
                return Err(DataflowError::Validation(owned("Missing 'source' in parse config")));
            },
        };
        let target = match input.get("target") {
            Some(v) => v.copy(),
            None => {
                return Err(DataflowError::Validation(owned("Missing 'target' in parse config")));
            },
        };
        Ok(ParseConfig { source: Template::new(source), target: PathTemplate::new(target) })
    }

    /// The location to read for this message, as plain text.
    pub fn resolve_source(&self, engine: &LogicEngine, message: &Message) -> (r: Result<
        String,
        DataflowError,
    >)
        ensures
            !self.source.compiled() ==> match literal_text(self.source.raw()) {
                Some(t) => r matches Ok(s) && s@ == t,
                None => r matches Err(DataflowError::LogicEvaluation(m)) && m@
                    == not_compiled_message(),
            },
            self.source.constant() matches Some(v) ==> (r matches Ok(s) && s@ == plain_text(v)),
            r matches Err(e) ==> e is LogicEvaluation,
    {
        self.source.resolve_string(engine, message.context())
    }

    /// Where the result lands for this message, as `(dotted, parts)` below
    /// `data`.
    pub fn resolve_target_path(&self, engine: &LogicEngine, message: &Message) -> (r: Result<
        (String, Vec<String>),
        DataflowError,
    >)
        ensures
            match self.target.destination() {
                Some(p) => r matches Ok(pair) && (pair.0@, parts_of(pair.1@)) == p,
                None => if !self.target.template().compiled() {
                    match literal_text(self.target.template().raw()) {
                        Some(t) => r matches Ok(pair) && (pair.0@, parts_of(pair.1@))
                            == DataRoot::rooted(t),
                        None => r matches Err(DataflowError::LogicEvaluation(m)) && m@
                            == not_compiled_message(),
                    }
                } else {
                    &&& r matches Ok(pair) ==> exists|t: Seq<char>|
                        (pair.0@, parts_of(pair.1@)) == DataRoot::rooted(t)
                    &&& r matches Err(e) ==> e is LogicEvaluation
                },
            },
    {
        self.target.resolve(engine, message.context())
    }

    /// The value at the location `source` resolved to, `null` when nothing
    /// is there.
    pub fn extract_source(&self, message: &Message, source: &str) -> (r: Json)
        ensures
            r.view_json() == parse_source(message.payload_value(), message.ctx(), source@).view_json(),
    {
        proof {
            reveal_strlit("payload");
            reveal_strlit("payload.");
            reveal_strlit("data.");
        }
        if str_eq(source, "payload") {
            return message.payload().copy();
        }
        let n = source.unicode_len();
        if str_starts_with(source, "payload.") {
            let rest = source.substring_char(8, n);
            assert(rest@ =~= source@.skip(8));
            assert(source@.take(8) =~= source@.subrange(0, 8));
            return match get_nested_value(message.payload(), rest) {
                Some(v) => v.copy(),
                None => Json::Null,
            };
        }
        assert(!has_prefix(source@, "payload."@)) by {
            if has_prefix(source@, "payload."@) {
                assert(source@.take(8) =~= source@.subrange(0, 8));
            }
        }
        if str_starts_with(source, "data.") {
            let rest = source.substring_char(5, n);
            assert(rest@ =~= source@.skip(5));
            assert(source@.take(5) =~= source@.subrange(0, 5));
            return match get_nested_value(message.data(), rest) {
                Some(v) => v.copy(),
                None => Json::Null,
            };
        }
        assert(!has_prefix(source@, "data."@)) by {
            if has_prefix(source@, "data."@) {
                assert(source@.take(5) =~= source@.subrange(0, 5));
            }
        }
        match get_nested_value(message.context(), source) {
            Some(v) => v.copy(),
            None => Json::Null,
        }
    }
}

/// The message a `parse_xml` fails with when its source is not a string.
pub open spec fn not_a_string_message(source: Seq<char>) -> Seq<char> {
    "ParseXml: Source '"@ + source + "' is not a string"@
}

/// The XML text a `parse_xml` reads: the source value, which must be a
/// string.
pub fn xml_text<'a>(source: &str, value: &'a Json) -> (r: Result<&'a str, DataflowError>)
    ensures
        match r {
            Ok(text) => value.str_of() == Some(text@),
            Err(e) => value.str_of() is None && (e matches DataflowError::Validation(m) && m@
                == not_a_string_message(source@)),
        },
{
    match value {
        Json::Str(s) => Ok(s.as_str()),
        _ => {
            let mut m = owned("ParseXml: Source '");
            push_str(&mut m, source);
            push_str(&mut m, "' is not a string");
            Err(DataflowError::Validation(m))
        },
    }
}

/// What `parse_json` stores, given the value at its source and, when that
/// value is a string, the string's text read as JSON (`None` when the text
/// is not JSON): the JSON a string holds, else the value itself.
pub fn resolve_parsed_source(raw: Json, reparsed: Option<Json>) -> (r: Json)
    ensures
        r == match (raw, reparsed) {
            (Json::Str(_), Some(v)) => v,
            _ => raw,
        },
{
    match raw {
        Json::Str(s) => match reparsed {
            Some(v) => v,
            None => Json::Str(s),
        },
        other => other,
    }
}

/// What `parse_json` stores for the value found at its source: a string
/// whose text reads as JSON is replaced by what it reads as; anything else,
/// and a string that does not read, is stored as it is.
pub fn parsed_source_value(raw: Json) -> (r: Json)
    ensures
        match raw {
            Json::Str(s) => if reads_json(s@) {
                r.view_json() == json_read(s@)
            } else {
                r == raw
            },
            _ => r == raw,
        },
{
    let reparsed = match &raw {
        Json::Str(s) => parse_json_text(s.as_str()),
        _ => None,
    };
    resolve_parsed_source(raw, reparsed)
}

/// Whether `stored` is what `parse_json` stores for the value `raw` found
/// at its source: a string that reads as JSON becomes what it reads as;
/// anything else is stored as it is.
pub open spec fn parse_json_stores(raw: Json, stored: JsonView) -> bool {
    match raw {
        Json::Str(s) => if reads_json(s@) {
            stored == json_read(s@)
        } else {
            stored == raw.view_json()
        },
        _ => stored == raw.view_json(),
    }
}

impl ParseConfig {
    /// Whether the location `source` fits the configured one: the text a
    /// constant expression gave, or the literal text of an expression never
    /// compiled; any location for one resolved per message.
    pub open spec fn reads_at(&self, source: Seq<char>) -> bool {
        &&& self.source.constant() matches Some(v) ==> source == plain_text(v)
        &&& !self.source.compiled() ==> literal_text(self.source.raw()) == Some(source)
    }

    /// The location read when it does not depend on the message: the text
    /// a constant expression gave, or the literal text of an expression
    /// never compiled.
    pub open spec fn fixed_source(&self) -> Option<Seq<char>> {
        match self.source.constant() {
            Some(v) => Some(plain_text(v)),
            None => if !self.source.compiled() {
                literal_text(self.source.raw())
            } else {
                None
            },
        }
    }

    /// Whether the target resolves whatever the message holds: a constant
    /// target, or the literal text of one never compiled.
    pub open spec fn fixed_target(&self) -> bool {
        self.target.destination() is Some || (!self.target.template().compiled() && literal_text(
            self.target.template().raw(),
        ) is Some)
    }

    /// Whether the path `parts` fits the configured target: the fixed
    /// destination of a constant target; any path below `data` for one
    /// resolved per message.
    pub open spec fn writes_at(&self, parts: Seq<Seq<char>>) -> bool {
        match self.target.destination() {
            Some(p) => parts == p.1,
            None => if !self.target.template().compiled() {
                match literal_text(self.target.template().raw()) {
                    Some(t) => parts == DataRoot::rooted(t).1,
                    None => false,
                }
            } else {
                exists|t: Seq<char>| parts == DataRoot::rooted(t).1
            },
        }
    }
}

/// Two values with one view are both strings, with one text, or neither.
proof fn lemma_view_json_same_kind(a: Json, b: Json)
    requires
        a.view_json() == b.view_json(),
    ensures
        a is Str <==> b is Str,
        a is Str ==> a->Str_0@ == b->Str_0@,
{
    match a {
        Json::Num(n) => {
            assert(a.view_json() == n.view_number());
        },
        _ => {},
    }
    match b {
        Json::Num(n) => {
            assert(b.view_json() == n.view_number());
        },
        _ => {},
    }
}

/// Write `value` at `parts` of the message's context, recording the change
/// when the message captures changes.
fn write_target(message: &mut Message, dotted: String, parts: &Vec<String>, value: Json) -> (r: Result<
    (usize, Vec<Change>),
    DataflowError,
>)
    ensures
        final(message).payload_value() == old(message).payload_value(),
        final(message).recorded_errors() == old(message).recorded_errors(),
        final(message).trail() == old(message).trail(),
        r matches Ok((status, _)) && status == 200 && final(message).ctx().view_json() == written(
            old(message).ctx().view_json(),
            parts_of(parts@),
            value.view_json(),
        ),
{
    let mut changes: Vec<Change> = Vec::new();
    if message.capture_changes() {
        let before = match get_nested_value(message.context(), dotted.as_str()) {
            Some(v) => v.copy(),
            None => Json::Null,
        };
        changes.push(Change { path: dotted, old_value: before, new_value: value.copy() });
    }
    let mut ctx = message.context().copy();
    write_at(&mut ctx, parts, value);
    message.replace_context(ctx);
    Ok((200, changes))
}

impl ParseConfig {
    /// Run `parse_json`: read the value at the source location, read a
    /// string holding JSON as that JSON, and write it at `data.{target}`.
    /// The source and target are resolved first; their failures are the
    /// task's.
    pub fn execute_parse_json(&self, message: &mut Message, engine: &LogicEngine) -> (r: Result<
        (usize, Vec<Change>),
        DataflowError,
    >)
        ensures
            final(message).payload_value() == old(message).payload_value(),
            r matches Ok((status, _)) ==> status == 200 && exists|source: Seq<char>, parts: Seq<Seq<char>>, stored: JsonView|
                #![trigger written(old(message).ctx().view_json(), parts, stored), parse_source(old(message).payload_value(), old(message).ctx(), source)]
                self.reads_at(source) && self.writes_at(parts)
                    && parse_json_stores(parse_source(old(message).payload_value(), old(message).ctx(), source), stored)
                    && final(message).ctx().view_json() == written(old(message).ctx().view_json(), parts, stored),
            self.fixed_source() is Some && self.fixed_target() ==> r is Ok,
            r matches Err(e) ==> e is LogicEvaluation && final(message).ctx() == old(message).ctx(),
    {
        let source = match self.resolve_source(engine, message) {
            Ok(s) => s,
            Err(e) => {
                return Err(e);
            },
        };
        let (dotted, parts) = match self.resolve_target_path(engine, message) {
            Ok(p) => p,
            Err(e) => {
                return Err(e);
            },
        };
        proof {
            assert(self.reads_at(source@));
            assert(self.writes_at(parts_of(parts@)));
        }
        let raw = self.extract_source(message, source.as_str());
        let ghost raw_view = parse_source(message.payload_value(), message.ctx(), source@);
        let value = parsed_source_value(raw);
        let ghost stored = value.view_json();
        proof {
            assert(parse_json_stores(raw_view, stored)) by {
                lemma_view_json_same_kind(raw, raw_view);
            }
        }
        write_target(message, dotted, &parts, value)
    }

    /// Run `parse_xml`: the value at the source location must be a string
    /// of XML, which is read and written at `data.{target}`.
    pub fn execute_parse_xml(&self, message: &mut Message, engine: &LogicEngine) -> (r: Result<
        (usize, Vec<Change>),
        DataflowError,
    >)
        ensures
            final(message).payload_value() == old(message).payload_value(),
            r matches Ok((status, _)) ==> status == 200 && exists|source: Seq<char>, parts: Seq<Seq<char>>, stored: JsonView|
                #![trigger written(old(message).ctx().view_json(), parts, stored), parse_source(old(message).payload_value(), old(message).ctx(), source)]
                self.reads_at(source) && self.writes_at(parts)
                    && (parse_source(old(message).payload_value(), old(message).ctx(), source).str_of() matches Some(t)
                    && reads_xml(t) && stored == xml_read(t)) && final(message).ctx().view_json() == written(
                    old(message).ctx().view_json(),
                    parts,
                    stored,
                ),
            match self.fixed_source() {
                Some(s) => match parse_source(old(message).payload_value(), old(message).ctx(), s).str_of() {
                    None => r matches Err(DataflowError::Validation(m)) && m@ == not_a_string_message(s),
                    Some(t) => if reads_xml(t) {
                        self.fixed_target() ==> r is Ok
                    } else {
                        r matches Err(DataflowError::Validation(m)) && m@ == xml_error_message(t)
                    },
                },
                None => true,
            },
            r matches Err(e) ==> final(message).ctx() == old(message).ctx(),
    {
        let source = match self.resolve_source(engine, message) {
            Ok(s) => s,
            Err(e) => {
                return Err(e);
            },
        };
        let raw = self.extract_source(message, source.as_str());
        let text = match xml_text(source.as_str(), &raw) {
            Ok(t) => t,
            Err(e) => {
                return Err(e);
            },
        };
        let ghost raw_view = parse_source(message.payload_value(), message.ctx(), source@);
        proof {
            lemma_view_json_same_kind(raw, raw_view);
        }
        let value = match xml_to_json(text) {
            Ok(v) => v,
            Err(e) => {
                return Err(e);
            },
        };
        let ghost stored = value.view_json();
        let (dotted, parts) = match self.resolve_target_path(engine, message) {
            Ok(p) => p,
            Err(e) => {
                return Err(e);
            },
        };
        proof {
            assert(self.reads_at(source@));
            assert(self.writes_at(parts_of(parts@)));
        }
        write_target(message, dotted, &parts, value)
    }
}

/// Where a parse reads: `payload` is the whole payload; `payload.<path>`
/// is the value at that path in the payload; `data.<path>` the value at that
/// path in the message's data; any other source is a path into the whole
/// context. Where nothing is found, the parse reads `null`.
pub proof fn lemma_parse_source_locations(payload: Json, context: Json, path: Seq<char>)
    ensures
        parse_source(payload, context, "payload"@) == payload,
        parse_source(payload, context, "payload."@ + path) == or_null(nested(payload, path)),
        parse_source(payload, context, "data."@ + path) == or_null(
            nested(root_field(context, "data"@), path),
        ),
        !has_prefix(path, "payload"@) && !has_prefix(path, "data."@) ==> parse_source(
            payload,
            context,
            path,
        ) == or_null(nested(context, path)),
{
    reveal_strlit("payload");
    reveal_strlit("payload.");
    reveal_strlit("data.");
    let p = "payload."@ + path;
    assert(p.take(8) =~= "payload."@);
    assert(p.skip(8) =~= path);
    assert(p != "payload"@) by {
        assert(p.len() != "payload"@.len());
    }
    let d = "data."@ + path;
    assert(d.take(5) =~= "data."@);
    assert(d.skip(5) =~= path);
    assert(d != "payload"@) by {
        assert(d[0] != "payload"@[0]);
    }
    assert(!has_prefix(d, "payload."@)) by {
        if has_prefix(d, "payload."@) {
            assert(d.take(8)[0] == d[0]);
        }
    }
    if !has_prefix(path, "payload"@) && !has_prefix(path, "data."@) {
        assert(path != "payload"@) by {
            if path == "payload"@ {
                assert(path.take(7) =~= path);
            }
        }
        assert(!has_prefix(path, "payload."@)) by {
            if has_prefix(path, "payload."@) {
                assert(path.take(7) =~= "payload."@.take(7));
                assert("payload."@.take(7) =~= "payload"@);
            }
        }
    }
}

} // verus!

//! A task's function: which built-in it is, with its typed config, or a
//! custom function with its raw input.

use vstd::prelude::*;
use crate::config::{
    BuiltinKind, ConnectorName, EnrichName, FilterName, HttpCallName, LogName, MapName,
    ParseJsonName, ParseXmlName, PublishJsonName, PublishKafkaName, PublishXmlName, ValidationName,
    builtin_kind,
};
use crate::config::canonical_name;
use crate::error::DataflowError;
use crate::filter::{FilterConfig, filter_input_read, reject_action_of};
use crate::function_input::{enrich_of, http_call_of, publish_kafka_of};
use crate::publish::{publish_input_read, str_field};
use crate::validation::{rules_have_logic, validation_input_read};
use crate::map::{map_config_of, map_input_read};
use crate::log::{level_of, log_input_read};
use crate::text::str_eq;
use crate::integration::{EnrichConfig, HttpCallConfig, PublishKafkaConfig};
use crate::json::Json;
use crate::log::LogConfig;
use crate::map::MapConfig;
use crate::parse::{ParseConfig, parse_input_read};
use crate::publish::PublishConfig;
use crate::validation::ValidationConfig;
use crate::text::{owned, push_str};

verus! {

/// A task's function.
#[derive(Debug)]
pub enum FunctionConfig {
    /// `map` (the variant is `Mapping`, since `Map` names the specification
    /// map type).
    Mapping { name: MapName, input: MapConfig },
    Validation { name: ValidationName, input: ValidationConfig },
    ParseJson { name: ParseJsonName, input: ParseConfig },
    ParseXml { name: ParseXmlName, input: ParseConfig },
    PublishJson { name: PublishJsonName, input: PublishConfig },
    PublishXml { name: PublishXmlName, input: PublishConfig },
    Filter { name: FilterName, input: FilterConfig },
    Log { name: LogName, input: LogConfig },
    HttpCall { name: HttpCallName, input: HttpCallConfig },
    Enrich { name: EnrichName, input: EnrichConfig },
    PublishKafka { name: PublishKafkaName, input: PublishKafkaConfig },
    /// A function the engine does not know, with its raw input.
    Custom { name: String, input: Json },
}

impl FunctionConfig {
    /// The name a function goes by: a built-in's canonical name (both
    /// spellings of validation are `validate`), a custom function's own.
    pub open spec fn name_view(&self) -> Seq<char> {
        match self {
            FunctionConfig::Mapping { .. } => "map"@,
            FunctionConfig::Validation { .. } => "validate"@,
            FunctionConfig::ParseJson { .. } => "parse_json"@,
            FunctionConfig::ParseXml { .. } => "parse_xml"@,
            FunctionConfig::PublishJson { .. } => "publish_json"@,
            FunctionConfig::PublishXml { .. } => "publish_xml"@,
            FunctionConfig::Filter { .. } => "filter"@,
            FunctionConfig::Log { .. } => "log"@,
            FunctionConfig::HttpCall { .. } => "http_call"@,
            FunctionConfig::Enrich { .. } => "enrich"@,
            FunctionConfig::PublishKafka { .. } => "publish_kafka"@,
            FunctionConfig::Custom { name, .. } => name@,
        }
    }

    /// Whether the engine runs the function itself, rather than handing it
    /// to a handler: every built-in but the three integrations.
    pub open spec fn runs_itself(&self) -> bool {
        !(self is HttpCall || self is Enrich || self is PublishKafka || self is Custom)
    }

    /// The function's name.
    pub fn function_name(&self) -> (r: &str)
        ensures
            r@ == self.name_view(),
    {
        match self {
            FunctionConfig::Mapping { .. } => "map",
            FunctionConfig::Validation { .. } => "validate",
            FunctionConfig::ParseJson { .. } => "parse_json",
            FunctionConfig::ParseXml { .. } => "parse_xml",
            FunctionConfig::PublishJson { .. } => "publish_json",
            FunctionConfig::PublishXml { .. } => "publish_xml",
            FunctionConfig::Filter { .. } => "filter",
            FunctionConfig::Log { .. } => "log",
            FunctionConfig::HttpCall { .. } => "http_call",
            FunctionConfig::Enrich { .. } => "enrich",
            FunctionConfig::PublishKafka { .. } => "publish_kafka",
            FunctionConfig::Custom { name, .. } => name.as_str(),
        }
    }

    /// Whether the engine runs the function on its own; the integrations and custom
    /// functions go to a registered handler.
    pub fn is_sync_builtin(&self) -> (r: bool)
        ensures
            r == self.runs_itself(),
    {
        match self {
            FunctionConfig::HttpCall { .. } | FunctionConfig::Enrich { .. }
            | FunctionConfig::PublishKafka { .. } | FunctionConfig::Custom { .. } => false,
            _ => true,
        }
    }

    /// The connector the task names, if any: the three integrations' typed
    /// `connector`, a literal or computed; a custom function's
    /// `input.connector` when it is a string; nothing for the other
    /// built-ins.
    pub fn connector(&self) -> (r: Option<ConnectorName<'_>>)
        ensures
            match self {
                FunctionConfig::HttpCall { input, .. } => r matches Some(c) && connector_of(
                    input.connector.raw(),
                    c,
                ),
                FunctionConfig::Enrich { input, .. } => r matches Some(c) && connector_of(
                    input.connector.raw(),
                    c,
                ),
                FunctionConfig::PublishKafka { input, .. } => r matches Some(c) && connector_of(
                    input.connector.raw(),
                    c,
                ),
                FunctionConfig::Custom { input, .. } => match input.field("connector"@) {
                    Some(Json::Str(s)) => r matches Some(ConnectorName::Static(t)) && t@ == s@,
                    _ => r is None,
                },
                _ => r is None,
            },
    {
        match self {
            FunctionConfig::HttpCall { input, .. } => Some(ConnectorName::of(input.connector.as_json())),
            FunctionConfig::Enrich { input, .. } => Some(ConnectorName::of(input.connector.as_json())),
            FunctionConfig::PublishKafka { input, .. } => Some(ConnectorName::of(input.connector.as_json())),
            FunctionConfig::Custom { input, .. } => match input.get("connector") {
                Some(Json::Str(s)) => Some(ConnectorName::Static(s.as_str())),
                _ => None,
            },
            _ => None,
        }
    }
}

/// Whether `c` is how an authored connector reads: a string is static, with
/// its text; anything else is computed, carrying the authored JSON.
pub open spec fn connector_of(authored: Json, c: ConnectorName) -> bool {
    match authored {
        Json::Str(s) => c matches ConnectorName::Static(t) && t@ == s@,
        _ => c == ConnectorName::Computed(&authored),
    }
}

/// A built-in's name classifies it the way the engine runs it: the engine
/// runs a function itself exactly when its name is a self-contained
/// built-in, and hands it to a handler when the name is a config-only one.
pub proof fn lemma_sync_builtins_are_self_contained(f: FunctionConfig)
    requires
        !(f is Custom),
    ensures
        f.runs_itself() <==> builtin_kind(f.name_view()) == Some(BuiltinKind::SelfContained),
        !f.runs_itself() <==> builtin_kind(f.name_view()) == Some(BuiltinKind::RequiresHandler),
{
    reveal_strlit("map");
    reveal_strlit("validation");
    reveal_strlit("validate");
    reveal_strlit("parse_json");
    reveal_strlit("parse_xml");
    reveal_strlit("publish_json");
    reveal_strlit("publish_xml");
    reveal_strlit("filter");
    reveal_strlit("log");
    reveal_strlit("http_call");
    reveal_strlit("enrich");
    reveal_strlit("publish_kafka");
    match f {
        FunctionConfig::Mapping { .. } => {
            assert(builtin_kind("map"@) == Some(BuiltinKind::SelfContained));
        },
        FunctionConfig::Validation { .. } => {
            assert(builtin_kind("validate"@) == Some(BuiltinKind::SelfContained));
        },
        FunctionConfig::ParseJson { .. } => {
            assert(builtin_kind("parse_json"@) == Some(BuiltinKind::SelfContained));
        },
        FunctionConfig::ParseXml { .. } => {
            assert(builtin_kind("parse_xml"@) == Some(BuiltinKind::SelfContained));
        },
        FunctionConfig::PublishJson { .. } => {
            assert(builtin_kind("publish_json"@) == Some(BuiltinKind::SelfContained));
        },
        FunctionConfig::PublishXml { .. } => {
            assert(builtin_kind("publish_xml"@) == Some(BuiltinKind::SelfContained));
        },
        FunctionConfig::Filter { .. } => {
            assert(builtin_kind("filter"@) == Some(BuiltinKind::SelfContained));
        },
        FunctionConfig::Log { .. } => {
            assert(builtin_kind("log"@) == Some(BuiltinKind::SelfContained));
        },
        FunctionConfig::HttpCall { .. } => {
            assert("http_call"@[0] != "parse_xml"@[0]);
            assert(builtin_kind("http_call"@) == Some(BuiltinKind::RequiresHandler));
        },
        FunctionConfig::Enrich { .. } => {
            assert("enrich"@[0] != "filter"@[0]);
            assert(builtin_kind("enrich"@) == Some(BuiltinKind::RequiresHandler));
        },
        FunctionConfig::PublishKafka { .. } => {
            assert("publish_kafka"@.len() == 13 && "publish_json"@.len() == 12 && "publish_xml"@.len() == 11);
            assert(builtin_kind("publish_kafka"@) == Some(BuiltinKind::RequiresHandler));
        },
        FunctionConfig::Custom { .. } => {},
    }
}

/// Whether `pat` occurs in `s` at `i`.
pub open spec fn occurs_at(s: Seq<char>, pat: Seq<char>, i: int) -> bool {
    0 <= i && i + pat.len() <= s.len() && s.subrange(i, i + pat.len()) == pat
}

/// `s` up to the last occurrence of `pat`, or all of `s` when it has none.
pub open spec fn before_last(s: Seq<char>, pat: Seq<char>) -> Seq<char> {
    if exists|i: int| occurs_at(s, pat, i) {
        let i = choose|i: int| occurs_at(s, pat, i) && forall|j: int| occurs_at(s, pat, j) ==> j <= i;
        s.take(i)
    } else {
        s
    }
}

/// The error a built-in's input that does not parse carries: the function's
/// name, then the parser's text without its trailing position (everything
/// from the last ` at line `).
pub open spec fn function_input_message(func: Seq<char>, raw: Seq<char>) -> Seq<char> {
    "config for function '"@ + func + "': "@ + before_last(raw, " at line "@)
}

/// Whether `pat` occurs in `s` at `i`, by comparing characters.
fn occurs_at_exec(s: &str, pat: &str, i: usize) -> (r: bool)
    requires
        i + pat@.len() <= s@.len(),
    ensures
        r == occurs_at(s@, pat@, i as int),
{
    let _n = s.unicode_len();
    let m = pat.unicode_len();
    let mut k: usize = 0;
    while k < m
        invariant
            m == pat@.len(),
            i + m <= s@.len(),
            s@.len() <= usize::MAX,
            k <= m,
            forall|j: int| 0 <= j < k ==> s@[i + j] == pat@[j],
        decreases m - k,
    {
        if s.get_char(i + k) != pat.get_char(k) {
            assert(s@.subrange(i as int, i + m)[k as int] != pat@[k as int]);
            return false;
        }
        k = k + 1;
    }
    assert(s@.subrange(i as int, i + m) =~= pat@);
    true
}

/// Where `pat` last occurs in `s`, if anywhere.
fn last_occurrence(s: &str, pat: &str) -> (r: Option<usize>)
    ensures
        match r {
            Some(i) => occurs_at(s@, pat@, i as int) && forall|j: int| occurs_at(s@, pat@, j) ==> j <= i,
            None => forall|j: int| !occurs_at(s@, pat@, j),
        },
{
    let n = s.unicode_len();
    let m = pat.unicode_len();
    if m > n {
        return None;
    }
    if m == 0 {
        assert(s@.subrange(n as int, n as int) =~= pat@);
        return Some(n);
    }
    let mut i: usize = n - m + 1;
    while i > 0
        invariant
            n == s@.len(),
            m == pat@.len(),
            m <= n,
            i <= n - m + 1,
            forall|j: int| i <= j ==> !occurs_at(s@, pat@, j),
        decreases i,
    {
        i = i - 1;
        if occurs_at_exec(s, pat, i) {
            return Some(i);
        }
    }
    None
}

/// The message a built-in's input that does not parse carries, given the
/// parser's text.
pub fn function_input_error(func: &str, raw: &str) -> (r: String)
    ensures
        r@ == function_input_message(func@, raw@),
{
    let pat = " at line ";
    let mut out = owned("config for function '");
    push_str(&mut out, func);
    push_str(&mut out, "': ");
    match last_occurrence(raw, pat) {
        Some(i) => {
            proof {
                let c = choose|c: int| occurs_at(raw@, pat@, c) && forall|j: int| occurs_at(raw@, pat@, j) ==> j <= c;
                assert(c == i);
            }
            let trimmed = raw.substring_char(0, i);
            assert(trimmed@ =~= raw@.take(i as int));
            push_str(&mut out, trimmed);
        },
        None => {
            push_str(&mut out, raw);
        },
    }
    out
}


/// The message a built-in's refused input carries: the function's name,
/// then the reader's text.
pub open spec fn config_error_text(name: Seq<char>, detail: Seq<char>) -> Seq<char> {
    "config for function '"@ + name + "': "@ + detail
}

/// The text a reader's refusal carries.
pub open spec fn detail_of(e: DataflowError) -> Seq<char> {
    match e {
        DataflowError::Validation(m) => m@,
        _ => Seq::empty(),
    }
}

/// A reader's refusal, as the error for the function `name`.
fn config_error(name: &str, e: DataflowError) -> (r: DataflowError)
    ensures
        r matches DataflowError::Deserialization(m) && m@ == config_error_text(name@, detail_of(e)),
{
    let mut m = owned("config for function '");
    push_str(&mut m, name);
    push_str(&mut m, "': ");
    match e {
        DataflowError::Validation(d) => push_str(&mut m, d.as_str()),
        _ => {},
    }
    DataflowError::Deserialization(m)
}

/// The built-in functions, one per name they may be authored under.
#[derive(Clone, Copy)]
pub enum Builtin {
    Mapping,
    Validate,
    Validation,
    ParseJson,
    ParseXml,
    PublishJson,
    PublishXml,
    Filter,
    Log,
    HttpCall,
    Enrich,
    PublishKafka,
}

/// The built-in authored under `n`, if any.
pub open spec fn builtin_of(n: Seq<char>) -> Option<Builtin> {
    if n == "map"@ {
        Some(Builtin::Mapping)
    } else if n == "validate"@ {
        Some(Builtin::Validate)
    } else if n == "validation"@ {
        Some(Builtin::Validation)
    } else if n == "parse_json"@ {
        Some(Builtin::ParseJson)
    } else if n == "parse_xml"@ {
        Some(Builtin::ParseXml)
    } else if n == "publish_json"@ {
        Some(Builtin::PublishJson)
    } else if n == "publish_xml"@ {
        Some(Builtin::PublishXml)
    } else if n == "filter"@ {
        Some(Builtin::Filter)
    } else if n == "log"@ {
        Some(Builtin::Log)
    } else if n == "http_call"@ {
        Some(Builtin::HttpCall)
    } else if n == "enrich"@ {
        Some(Builtin::Enrich)
    } else if n == "publish_kafka"@ {
        Some(Builtin::PublishKafka)
    } else {
        None
    }
}

/// The built-in authored under `name`, if any.
fn builtin_named(name: &str) -> (r: Option<Builtin>)
    ensures
        r == builtin_of(name@),
        r is None <==> builtin_kind(name@) is None,
{
    if str_eq(name, "map") {
        Some(Builtin::Mapping)
    } else if str_eq(name, "validate") {
        Some(Builtin::Validate)
    } else if str_eq(name, "validation") {
        Some(Builtin::Validation)
    } else if str_eq(name, "parse_json") {
        Some(Builtin::ParseJson)
    } else if str_eq(name, "parse_xml") {
        Some(Builtin::ParseXml)
    } else if str_eq(name, "publish_json") {
        Some(Builtin::PublishJson)
    } else if str_eq(name, "publish_xml") {
        Some(Builtin::PublishXml)
    } else if str_eq(name, "filter") {
        Some(Builtin::Filter)
    } else if str_eq(name, "log") {
        Some(Builtin::Log)
    } else if str_eq(name, "http_call") {
        Some(Builtin::HttpCall)
    } else if str_eq(name, "enrich") {
        Some(Builtin::Enrich)
    } else if str_eq(name, "publish_kafka") {
        Some(Builtin::PublishKafka)
    } else {
        None
    }
}

/// Whether a built-in's input reads, by that built-in's reader.
pub open spec fn input_reads(which: Builtin, input: Json) -> bool {
    match which {
        Builtin::Mapping => map_config_of(input) is Ok,
        Builtin::Validate | Builtin::Validation => input.field("rules"@) matches Some(rules)
            && rules.items() matches Some(items) && rules_have_logic(items),
        Builtin::ParseJson | Builtin::ParseXml => input.field("source"@) is Some && input.field(
            "target"@,
        ) is Some,
        Builtin::PublishJson | Builtin::PublishXml => str_field(input, "source"@) is Some
            && str_field(input, "target"@) is Some,
        Builtin::Filter => input.field("condition"@) is Some && reject_action_of(
            input.field("on_reject"@),
        ) is Some,
        Builtin::Log => level_of(input.field("level"@)) is Some && input.field("message"@) is Some
            && match input.field("fields"@) {
            None => true,
            Some(Json::Object(_)) => true,
            Some(_) => false,
        },
        Builtin::HttpCall => http_call_of(input) is Ok,
        Builtin::Enrich => enrich_of(input) is Ok,
        Builtin::PublishKafka => publish_kafka_of(input) is Ok,
    }
}

/// Whether `r` is what reading the input of the built-in `which`,
/// authored under `n`, gives: exactly what that built-in's reader gives,
/// as a config of that built-in; a refusal names the function, then the
/// reader's text.
pub open spec fn builtin_read_as(which: Builtin, n: Seq<char>, input: Json, r: Result<FunctionConfig, DataflowError>) -> bool {
    &&& r is Ok <==> input_reads(which, input)
    &&& r matches Ok(c) ==> !(c is Custom) && c.name_view() == canonical_name(n)
    &&& r matches Err(e) ==> e matches DataflowError::Deserialization(m)
        && exists|detail: Seq<char>| m@ == config_error_text(n, detail)
    &&& which is Mapping ==> match r {
        Ok(FunctionConfig::Mapping { input: c, .. }) => map_input_read(input, Ok(c)),
        Err(DataflowError::Deserialization(m)) => exists|e: DataflowError|
            #[trigger] map_input_read(input, Err(e)) && m@ == config_error_text(n, detail_of(e)),
        _ => false,
    }
    &&& (which is Validate || which is Validation) ==> match r {
        Ok(FunctionConfig::Validation { input: c, .. }) => validation_input_read(input, Ok(c)),
        Err(DataflowError::Deserialization(m)) => exists|e: DataflowError|
            #[trigger] validation_input_read(input, Err(e)) && m@ == config_error_text(n, detail_of(e)),
        _ => false,
    }
    &&& which is ParseJson ==> match r {
        Ok(FunctionConfig::ParseJson { input: c, .. }) => parse_input_read(input, Ok(c)),
        Err(DataflowError::Deserialization(m)) => exists|e: DataflowError|
            #[trigger] parse_input_read(input, Err(e)) && m@ == config_error_text(n, detail_of(e)),
        _ => false,
    }
    &&& which is ParseXml ==> match r {
        Ok(FunctionConfig::ParseXml { input: c, .. }) => parse_input_read(input, Ok(c)),
        Err(DataflowError::Deserialization(m)) => exists|e: DataflowError|
            #[trigger] parse_input_read(input, Err(e)) && m@ == config_error_text(n, detail_of(e)),
        _ => false,
    }
    &&& which is PublishJson ==> match r {
        Ok(FunctionConfig::PublishJson { input: c, .. }) => publish_input_read(input, Ok(c)),
        Err(DataflowError::Deserialization(m)) => exists|e: DataflowError|
            #[trigger] publish_input_read(input, Err(e)) && m@ == config_error_text(n, detail_of(e)),
        _ => false,
    }
    &&& which is PublishXml ==> match r {
        Ok(FunctionConfig::PublishXml { input: c, .. }) => publish_input_read(input, Ok(c)),
        Err(DataflowError::Deserialization(m)) => exists|e: DataflowError|
            #[trigger] publish_input_read(input, Err(e)) && m@ == config_error_text(n, detail_of(e)),
        _ => false,
    }
    &&& which is Filter ==> match r {
        Ok(FunctionConfig::Filter { input: c, .. }) => filter_input_read(input, Ok(c)),
        Err(DataflowError::Deserialization(m)) => exists|e: DataflowError|
            #[trigger] filter_input_read(input, Err(e)) && m@ == config_error_text(n, detail_of(e)),
        _ => false,
    }
    &&& which is Log ==> match r {
        Ok(FunctionConfig::Log { input: c, .. }) => log_input_read(input, Ok(c)),
        Err(DataflowError::Deserialization(m)) => exists|e: DataflowError|
            #[trigger] log_input_read(input, Err(e)) && m@ == config_error_text(n, detail_of(e)),
        _ => false,
    }
    &&& which is HttpCall ==> match http_call_of(input) {
        Ok(view) => r matches Ok(FunctionConfig::HttpCall { input: c, .. })
            && c.view_config() == view,
        Err(d) => r matches Err(DataflowError::Deserialization(m)) && m@
            == config_error_text(n, d),
    }
    &&& which is Enrich ==> match enrich_of(input) {
        Ok(view) => r matches Ok(FunctionConfig::Enrich { input: c, .. })
            && c.view_config() == view,
        Err(d) => r matches Err(DataflowError::Deserialization(m)) && m@
            == config_error_text(n, d),
    }
    &&& which is PublishKafka ==> match publish_kafka_of(input) {
        Ok(view) => r matches Ok(FunctionConfig::PublishKafka { input: c, .. })
            && c.view_config() == view,
        Err(d) => r matches Err(DataflowError::Deserialization(m)) && m@
            == config_error_text(n, d),
    }
}

/// Read the input of the built-in `which`, authored under `name`, by its
/// reader.
fn read_builtin(which: Builtin, name: &str, input: &Json) -> (r: Result<FunctionConfig, DataflowError>)
    requires
        builtin_of(name@) == Some(which),
    ensures
        builtin_read_as(which, name@, *input, r),
{
    proof {
        reveal_strlit("map");
        reveal_strlit("validate");
        reveal_strlit("validation");
        reveal_strlit("parse_json");
        reveal_strlit("parse_xml");
        reveal_strlit("publish_json");
        reveal_strlit("publish_xml");
        reveal_strlit("filter");
        reveal_strlit("log");
        reveal_strlit("http_call");
        reveal_strlit("enrich");
        reveal_strlit("publish_kafka");
    }
    let read = match which {
        Builtin::Mapping => match MapConfig::from_json(input) {
            Ok(c) => {
                let f = FunctionConfig::Mapping { name: MapName::Mapping, input: c };
                assert(f.name_view() == canonical_name(name@));
                Ok(f)
            },
            Err(e) => Err(e),
        },
        Builtin::Validate => match ValidationConfig::from_json(input) {
            Ok(c) => {
                let f = FunctionConfig::Validation { name: ValidationName::Validate, input: c };
                assert(f.name_view() == canonical_name(name@));
                Ok(f)
            },
            Err(e) => Err(e),
        },
        Builtin::Validation => match ValidationConfig::from_json(input) {
            Ok(c) => {
                let f = FunctionConfig::Validation { name: ValidationName::Validation, input: c };
                assert(f.name_view() == canonical_name(name@));
                Ok(f)
            },
            Err(e) => Err(e),
        },
        Builtin::ParseJson => match ParseConfig::from_json(input) {
            Ok(c) => {
                let f = FunctionConfig::ParseJson { name: ParseJsonName::ParseJson, input: c };
                assert(f.name_view() == canonical_name(name@));
                Ok(f)
            },
            Err(e) => Err(e),
        },
        Builtin::ParseXml => match ParseConfig::from_json(input) {
            Ok(c) => {
                let f = FunctionConfig::ParseXml { name: ParseXmlName::ParseXml, input: c };
                assert(f.name_view() == canonical_name(name@));
                Ok(f)
            },
            Err(e) => Err(e),
        },
        Builtin::PublishJson => match PublishConfig::from_json(input) {
            Ok(c) => {
                let f = FunctionConfig::PublishJson { name: PublishJsonName::PublishJson, input: c };
                assert(f.name_view() == canonical_name(name@));
                Ok(f)
            },
            Err(e) => Err(e),
        },
        Builtin::PublishXml => match PublishConfig::from_json(input) {
            Ok(c) => {
                let f = FunctionConfig::PublishXml { name: PublishXmlName::PublishXml, input: c };
                assert(f.name_view() == canonical_name(name@));
                Ok(f)
            },
            Err(e) => Err(e),
        },
        Builtin::Filter => match FilterConfig::from_json(input) {
            Ok(c) => {
                let f = FunctionConfig::Filter { name: FilterName::Filter, input: c };
                assert(f.name_view() == canonical_name(name@));
                Ok(f)
            },
            Err(e) => Err(e),
        },
        Builtin::Log => match LogConfig::from_json(input) {
            Ok(c) => {
                let f = FunctionConfig::Log { name: LogName::Log, input: c };
                assert(f.name_view() == canonical_name(name@));
                Ok(f)
            },
            Err(e) => Err(e),
        },
        Builtin::HttpCall => match HttpCallConfig::from_json(input) {
            Ok(c) => {
                let f = FunctionConfig::HttpCall { name: HttpCallName::HttpCall, input: c };
                assert(f.name_view() == canonical_name(name@));
                Ok(f)
            },
            Err(e) => Err(e),
        },
        Builtin::Enrich => match EnrichConfig::from_json(input) {
            Ok(c) => {
                let f = FunctionConfig::Enrich { name: EnrichName::Enrich, input: c };
                assert(f.name_view() == canonical_name(name@));
                Ok(f)
            },
            Err(e) => Err(e),
        },
        Builtin::PublishKafka => match PublishKafkaConfig::from_json(input) {
            Ok(c) => {
                let f = FunctionConfig::PublishKafka { name: PublishKafkaName::PublishKafka, input: c };
                assert(f.name_view() == canonical_name(name@));
                Ok(f)
            },
            Err(e) => Err(e),
        },
    };
    match read {
        Ok(c) => Ok(c),
        Err(e) => Err(config_error(name, e)),
    }
}

/// Read a task's function from its authored `{"name", "input"}`. A name
/// that is not a built-in's is a custom function with the input as it is;
/// a built-in's input is read by that built-in's reader, whose refusal is a
/// `Deserialization` error `config for function '<name>': ` and the
/// reader's text.
pub fn function_config_from_json(v: &Json) -> (r: Result<FunctionConfig, DataflowError>)
    ensures
        match v.field("name"@) {
            None => r matches Err(DataflowError::Deserialization(m)) && m@ == "missing field `name`"@,
            Some(Json::Str(n)) => match v.field("input"@) {
                None => r matches Err(DataflowError::Deserialization(m)) && m@
                    == "missing field `input`"@,
                Some(input) => if builtin_kind(n@) is None {
                    r matches Ok(FunctionConfig::Custom { name, input: i }) && name@ == n@
                        && i.view_json() == input.view_json()
                } else {
                    builtin_of(n@) matches Some(which) && builtin_read_as(which, n@, input, r)
                },
            },
            Some(_) => r matches Err(DataflowError::Deserialization(m)) && m@
                == "invalid type for `name`, expected a string"@,
        },
{
    let name = match v.get("name") {
        None => {
            return Err(DataflowError::Deserialization(owned("missing field `name`")));
        },
        Some(Json::Str(n)) => n.as_str(),
        Some(_) => {
            return Err(
                DataflowError::Deserialization(owned("invalid type for `name`, expected a string")),
            );
        },
    };
    let input = match v.get("input") {
        Some(i) => i,
        None => {
            return Err(DataflowError::Deserialization(owned("missing field `input`")));
        },
    };
    match builtin_named(name) {
        None => Ok(FunctionConfig::Custom { name: owned(name), input: input.copy() }),
        Some(which) => read_builtin(which, name, input),
    }
}

} // verus!

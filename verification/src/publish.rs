//! The `publish_*` built-ins' configuration, and the XML form a value is
//! published as.
//!
//! An object becomes one element per key, named by the key made a valid XML
//! name; an array becomes one `<item>` element per element; a scalar becomes
//! its text, with the five XML special characters escaped.

use vstd::prelude::*;
use crate::error::DataflowError;
use crate::json::{Json, Number};
use crate::message::{Change, Message, root_field};
use crate::json::JsonView;
use crate::json_text::{json_text, json_text_of};
use crate::map::{write_at, written};
use crate::path_template::{DataRoot, PathRoot, parts_of};
use crate::values::{pretty_json, pretty_text, to_engine};
use crate::paths::{get_nested_value, nested};
use crate::text::{
    decimal, owned, push_char, push_decimal, push_signed_decimal, push_str, signed_decimal,
    str_starts_with,
};

verus! {

/// Configuration for the publish functions.
#[derive(Debug)]
pub struct PublishConfig {
    /// Source field path inside `data` to serialize.
    pub source: String,
    /// Target field name inside `data` to receive the serialized string.
    pub target: String,
    /// Whether to pretty-print the output (JSON only).
    pub pretty: bool,
    /// Root element name for XML output.
    pub root_element: String,
}

/// The root element an XML publish uses when none is configured.
pub open spec fn default_root() -> Seq<char> {
    "root"@
}

/// The root element an XML publish uses when none is configured.
pub fn default_root_element() -> (r: String)
    ensures
        r@ == default_root(),
{
    owned("root")
}

/// The string under `key`, when it is one.
pub open spec fn str_field(input: Json, key: Seq<char>) -> Option<Seq<char>> {
    match input.field(key) {
        Some(v) => v.str_of(),
        None => None,
    }
}

/// The boolean under `key`, when it is one.
pub open spec fn bool_field(input: Json, key: Seq<char>) -> Option<bool> {
    match input.field(key) {
        Some(Json::Bool(b)) => Some(b),
        _ => None,
    }
}

/// Whether `r` is what reading a `PublishConfig` input from `input` gives.
pub open spec fn publish_input_read(input: Json, r: Result<PublishConfig, DataflowError>) -> bool {
    match r {
        Ok(c) => str_field(input, "source"@) == Some(c.source@) && str_field(
            input,
            "target"@,
        ) == Some(c.target@) && c.pretty == (bool_field(input, "pretty"@) == Some(true))
            && c.root_element@ == match str_field(input, "root_element"@) {
            Some(r) => r,
            None => default_root(),
        },
        Err(e) => if str_field(input, "source"@) is None {
            e matches DataflowError::Validation(m) && m@
                == "Missing 'source' in publish config"@
        } else {
            str_field(input, "target"@) is None && (e matches DataflowError::Validation(m)
                && m@ == "Missing 'target' in publish config"@)
        },
    }
}

impl PublishConfig {
    /// Read a publish config from its JSON input: `source` and `target` are
    /// required strings; `pretty` defaults to `false` and `root_element` to
    /// `root`.
    pub fn from_json(input: &Json) -> (r: Result<PublishConfig, DataflowError>)
        ensures
            publish_input_read(*input, r),
    {
        let source = match input.get("source") {
            Some(v) => match v.as_str() {
                Some(s) => owned(s),
                None => {
                    return Err(DataflowError::Validation(owned("Missing 'source' in publish config")));
                },
            },
            None => {
                return Err(DataflowError::Validation(owned("Missing 'source' in publish config")));
            },
        };
        let target = match input.get("target") {
            Some(v) => match v.as_str() {
                Some(s) => owned(s),
                None => {
                    return Err(DataflowError::Validation(owned("Missing 'target' in publish config")));
                },
            },
            None => {
                return Err(DataflowError::Validation(owned("Missing 'target' in publish config")));
            },
        };
        let pretty = match input.get("pretty") {
            Some(v) => match v.as_bool() {
                Some(b) => b,
                None => false,
            },
            None => false,
        };
        let root_element = match input.get("root_element") {
            Some(v) => match v.as_str() {
                Some(s) => owned(s),
                None => default_root_element(),
            },
            None => default_root_element(),
        };
        Ok(PublishConfig { source, target, pretty, root_element })
    }
}

/// Where a publish finds its source in `data`: the key `source` itself,
/// else the dotted path `source`, else, for a `data.`-prefixed source, the
/// path after the prefix.
pub open spec fn publish_source_at(data: Json, source: Seq<char>) -> Option<Json> {
    match data.field(source) {
        Some(v) => Some(v),
        None => match nested(data, source) {
            Some(v) => Some(v),
            None => if source.len() >= 5 && source.take(5) == "data."@ {
                nested(data, source.skip(5))
            } else {
                None
            },
        },
    }
}

/// The value a publish reads from `data`; `null` when its source is not
/// found.
pub open spec fn publish_source(data: Json, source: Seq<char>) -> Json {
    match publish_source_at(data, source) {
        Some(v) => v,
        None => Json::Null,
    }
}

/// The two publish functions.
#[derive(Debug, Clone, Copy, PartialEq, Eq, Structural)]
pub enum PublishFormat {
    Json,
    Xml,
}

/// The message a publish fails with when its source is missing or null.
pub open spec fn missing_source_message(format: PublishFormat, source: Seq<char>) -> Seq<char> {
    let prefix = match format {
        PublishFormat::Json => "PublishJson: Source 'data."@,
        PublishFormat::Xml => "PublishXml: Source 'data."@,
    };
    prefix + source + "' not found or is null"@
}

impl PublishConfig {
    /// Find the source in `data`.
    fn find_source<'a>(&self, data: &'a Json) -> (r: Option<&'a Json>)
        ensures
            match r {
                Some(v) => publish_source_at(*data, self.source@) == Some(*v),
                None => publish_source_at(*data, self.source@) is None,
            },
    {
        if let Some(value) = data.get(self.source.as_str()) {
            return Some(value);
        }
        if let Some(value) = get_nested_value(data, self.source.as_str()) {
            return Some(value);
        }
        proof {
            reveal_strlit("data.");
        }
        if str_starts_with(self.source.as_str(), "data.") {
            let n = self.source.as_str().unicode_len();
            let rest = self.source.as_str().substring_char(5, n);
            assert(rest@ =~= self.source@.skip(5));
            assert(self.source@.take(5) =~= self.source@.subrange(0, 5));
            get_nested_value(data, rest)
        } else {
            assert(!(self.source@.len() >= 5 && self.source@.take(5) == "data."@)) by {
                if self.source@.len() >= 5 && self.source@.take(5) == "data."@ {
                    assert(self.source@.subrange(0, 5) =~= self.source@.take(5));
                }
            }
            None
        }
    }

    /// The value this publish serializes, read from the message's `data`;
    /// `null` when the source is not found.
    pub fn extract_source(&self, message: &Message) -> (r: Json)
        ensures
            r.view_json() == publish_source(root_field(message.ctx(), "data"@), self.source@).view_json(),
    {
        match self.find_source(message.data()) {
            Some(v) => v.copy(),
            None => Json::Null,
        }
    }

    /// The source a publish serializes, which must be found and not `null`.
    pub fn source_value<'a>(&self, message: &'a Message, format: PublishFormat) -> (r: Result<
        &'a Json,
        DataflowError,
    >)
        ensures
            match r {
                Ok(v) => publish_source_at(root_field(message.ctx(), "data"@), self.source@) == Some(
                    *v,
                ) && !(*v is Null),
                Err(e) => publish_source(root_field(message.ctx(), "data"@), self.source@) is Null
                    && (e matches DataflowError::Validation(m) && m@ == missing_source_message(
                    format,
                    self.source@,
                )),
            },
    {
        match self.find_source(message.data()) {
            Some(v) => {
                if !v.is_null() {
                    return Ok(v);
                }
            },
            None => {},
        }
        let mut m = match format {
            PublishFormat::Json => owned("PublishJson: Source 'data."),
            PublishFormat::Xml => owned("PublishXml: Source 'data."),
        };
        push_str(&mut m, self.source.as_str());
        push_str(&mut m, "' not found or is null");
        Err(DataflowError::Validation(m))
    }

    /// The XML a `publish_xml` stores: its source as a document under the
    /// configured root element.
    pub fn xml_output(&self, message: &Message) -> (r: Result<String, DataflowError>)
        ensures
            match r {
                Ok(s) => publish_source_at(root_field(message.ctx(), "data"@), self.source@) matches Some(
                    v,
                ) && !(v is Null) && s@ == xml_document(v, self.root_element@),
                Err(e) => publish_source(root_field(message.ctx(), "data"@), self.source@) is Null
                    && (e matches DataflowError::Validation(m) && m@ == missing_source_message(
                    PublishFormat::Xml,
                    self.source@,
                )),
            },
    {
        let value = match self.source_value(message, PublishFormat::Xml) {
            Ok(v) => v,
            Err(e) => {
                return Err(e);
            },
        };
        json_to_xml(value, self.root_element.as_str())
    }

    /// Where a publish stores its output: `data.{target}`.
    pub fn target_path(&self) -> (r: String)
        ensures
            r@ == "data."@ + self.target@,
    {
        let mut p = owned("data.");
        push_str(&mut p, self.target.as_str());
        p
    }
}

/// One character as XML text: the five special characters as entities.
pub open spec fn escape_char(c: char) -> Seq<char> {
    if c == '&' {
        "&amp;"@
    } else if c == '<' {
        "&lt;"@
    } else if c == '>' {
        "&gt;"@
    } else if c == '"' {
        "&quot;"@
    } else if c == '\'' {
        "&apos;"@
    } else {
        seq![c]
    }
}

/// A string as XML text.
pub open spec fn escaped(s: Seq<char>) -> Seq<char>
    decreases s.len(),
{
    if s.len() == 0 {
        Seq::empty()
    } else {
        escaped(s.drop_last()) + escape_char(s.last())
    }
}

/// Escape the five XML special characters of `s`.
pub fn escape_xml(s: &str) -> (r: String)
    ensures
        r@ == escaped(s@),
{
    let n = s.unicode_len();
    let mut out = String::new();
    let mut i: usize = 0;
    assert(s@.take(0) =~= Seq::<char>::empty());
    assert(out@ =~= escaped(s@.take(0)));
    while i < n
        invariant
            n == s@.len(),
            i <= n,
            out@ == escaped(s@.take(i as int)),
        decreases n - i,
    {
        let c = s.get_char(i);
        if c == '&' {
            push_str(&mut out, "&amp;");
        } else if c == '<' {
            push_str(&mut out, "&lt;");
        } else if c == '>' {
            push_str(&mut out, "&gt;");
        } else if c == '"' {
            push_str(&mut out, "&quot;");
        } else if c == '\'' {
            push_str(&mut out, "&apos;");
        } else {
            push_char(&mut out, c);
        }
        assert(s@.take(i + 1).drop_last() =~= s@.take(i as int));
        assert(s@.take(i + 1).last() == c);
        assert(out@ =~= escaped(s@.take(i + 1)));
        i = i + 1;
    }
    assert(s@.take(n as int) =~= s@);
    out
}

/// Whether `c` is an ASCII letter.
pub open spec fn ascii_alpha(c: char) -> bool {
    ('a' <= c && c <= 'z') || ('A' <= c && c <= 'Z')
}

/// Whether `c` is an ASCII letter or digit.
pub open spec fn ascii_alnum(c: char) -> bool {
    ascii_alpha(c) || ('0' <= c && c <= '9')
}

/// What one character of a name becomes in an XML name: the first must
/// start a name (a letter or `_`; anything else is replaced by `_`, keeping
/// a digit after it), the rest may also be digits, `-` and `.`.
pub open spec fn name_char(c: char, first: bool) -> Seq<char> {
    if first {
        if ascii_alpha(c) || c == '_' {
            seq![c]
        } else if ascii_alnum(c) {
            seq!['_', c]
        } else {
            seq!['_']
        }
    } else if ascii_alnum(c) || c == '-' || c == '_' || c == '.' {
        seq![c]
    } else {
        seq!['_']
    }
}

/// The first `k` characters of `name` made valid in an XML name.
pub open spec fn sanitized_prefix(name: Seq<char>, k: int) -> Seq<char>
    decreases k,
{
    if k <= 0 {
        Seq::empty()
    } else {
        sanitized_prefix(name, k - 1) + name_char(name[k - 1], k - 1 == 0)
    }
}

/// A key made a valid XML element name; `_element` for the empty key.
pub open spec fn sanitized(name: Seq<char>) -> Seq<char> {
    if name.len() == 0 {
        "_element"@
    } else {
        sanitized_prefix(name, name.len() as int)
    }
}

/// Make `name` a valid XML element name.
pub fn sanitize_xml_name(name: &str) -> (r: String)
    ensures
        r@ == sanitized(name@),
{
    let n = name.unicode_len();
    if n == 0 {
        return owned("_element");
    }
    let mut out = String::new();
    let mut i: usize = 0;
    assert(out@ =~= sanitized_prefix(name@, 0));
    while i < n
        invariant
            n == name@.len(),
            i <= n,
            out@ == sanitized_prefix(name@, i as int),
        decreases n - i,
    {
        let c = name.get_char(i);
        let alpha = ('a' <= c && c <= 'z') || ('A' <= c && c <= 'Z');
        let alnum = alpha || ('0' <= c && c <= '9');
        if i == 0 {
            if alpha || c == '_' {
                push_char(&mut out, c);
            } else {
                push_char(&mut out, '_');
                if alnum {
                    push_char(&mut out, c);
                }
            }
        } else if alnum || c == '-' || c == '_' || c == '.' {
            push_char(&mut out, c);
        } else {
            push_char(&mut out, '_');
        }
        assert(out@ =~= sanitized_prefix(name@, i + 1));
        i = i + 1;
    }
    out
}

/// The text a number is written as.
pub open spec fn number_text(n: Number) -> Seq<char> {
    match n {
        Number::Int(i) => signed_decimal(i as int),
        Number::UInt(u) => decimal(u as nat),
        Number::Float(t) => t@,
    }
}

/// A scalar as XML text: nothing for `null` (and for a container),
/// `true`/`false`, a number's text, an escaped string.
pub open spec fn scalar_text(value: Json) -> Seq<char> {
    match value {
        Json::Bool(b) => if b {
            "true"@
        } else {
            "false"@
        },
        Json::Num(n) => number_text(n),
        Json::Str(s) => escaped(s@),
        _ => Seq::empty(),
    }
}

/// `<name>`.
pub open spec fn open_tag(name: Seq<char>) -> Seq<char> {
    seq!['<'] + name + seq!['>']
}

/// `</name>`.
pub open spec fn close_tag(name: Seq<char>) -> Seq<char> {
    seq!['<', '/'] + name + seq!['>']
}

/// The XML content of a value: an element per object key, an `<item>` per
/// array element, a scalar's text.
pub open spec fn xml_content(value: Json) -> Seq<char>
    decreases value,
{
    match value {
        Json::Object(entries) => entries_xml(entries@),
        Json::Array(items) => items_xml(items@),
        _ => scalar_text(value),
    }
}

/// The elements of an object's entries, in order.
pub open spec fn entries_xml(entries: Seq<(String, Json)>) -> Seq<char>
    decreases entries,
{
    if entries.len() == 0 {
        Seq::empty()
    } else {
        let last = entries[entries.len() - 1];
        let tag = sanitized(last.0@);
        entries_xml(entries.subrange(0, entries.len() - 1)) + open_tag(tag) + xml_content(last.1)
            + close_tag(tag)
    }
}

/// The `<item>` elements of an array's items, in order.
pub open spec fn items_xml(items: Seq<Json>) -> Seq<char>
    decreases items,
{
    if items.len() == 0 {
        Seq::empty()
    } else {
        items_xml(items.subrange(0, items.len() - 1)) + open_tag("item"@) + xml_content(
            items[items.len() - 1],
        ) + close_tag("item"@)
    }
}

/// Append `<name>`.
fn push_open_tag(out: &mut String, name: &str)
    ensures
        final(out)@ == old(out)@ + open_tag(name@),
{
    push_char(out, '<');
    push_str(out, name);
    push_char(out, '>');
    assert(out@ =~= old(out)@ + open_tag(name@));
}

/// Append `</name>`.
fn push_close_tag(out: &mut String, name: &str)
    ensures
        final(out)@ == old(out)@ + close_tag(name@),
{
    push_char(out, '<');
    push_char(out, '/');
    push_str(out, name);
    push_char(out, '>');
    assert(out@ =~= old(out)@ + close_tag(name@));
}

/// A scalar as XML text.
pub fn value_to_xml_string(value: &Json) -> (r: String)
    ensures
        r@ == scalar_text(*value),
{
    match value {
        Json::Bool(b) => if *b {
            owned("true")
        } else {
            owned("false")
        },
        Json::Num(n) => {
            let mut s = String::new();
            match n {
                Number::Int(i) => push_signed_decimal(&mut s, *i),
                Number::UInt(u) => push_decimal(&mut s, *u),
                Number::Float(t) => push_str(&mut s, t.as_str()),
            }
            assert(s@ =~= scalar_text(*value));
            s
        },
        Json::Str(s) => escape_xml(s.as_str()),
        _ => String::new(),
    }
}

/// Append the XML content of `value` to `out`.
fn push_xml_content(value: &Json, out: &mut String)
    ensures
        final(out)@ == old(out)@ + xml_content(*value),
    decreases value,
{
    let ghost start = out@;
    match value {
        Json::Object(entries) => {
            let mut k: usize = 0;
            assert(entries@.subrange(0, 0) =~= Seq::<(String, Json)>::empty());
            assert(out@ =~= start + entries_xml(entries@.subrange(0, 0)));
            while k < entries.len()
                invariant
                    k <= entries@.len(),
                    *value == Json::Object(*entries),
                    out@ == start + entries_xml(entries@.subrange(0, k as int)),
                decreases entries@.len() - k,
            {
                assert(decreases_to!(*value => value->Object_0));
                assert(decreases_to!(value->Object_0 => value->Object_0@));
                assert(decreases_to!(entries@ => entries@[k as int]));
                assert(decreases_to!(entries@[k as int] => entries@[k as int].1));
                let tag = sanitize_xml_name(entries[k].0.as_str());
                push_open_tag(out, tag.as_str());
                push_xml_content(&entries[k].1, out);
                push_close_tag(out, tag.as_str());
                let ghost next = entries@.subrange(0, k + 1);
                assert(next.subrange(0, k as int) =~= entries@.subrange(0, k as int));
                assert(next[k as int] == entries@[k as int]);
                assert(out@ =~= start + entries_xml(next));
                k = k + 1;
            }
            assert(entries@.subrange(0, entries@.len() as int) =~= entries@);
        },
        Json::Array(items) => {
            let mut k: usize = 0;
            assert(items@.subrange(0, 0) =~= Seq::<Json>::empty());
            assert(out@ =~= start + items_xml(items@.subrange(0, 0)));
            while k < items.len()
                invariant
                    k <= items@.len(),
                    *value == Json::Array(*items),
                    out@ == start + items_xml(items@.subrange(0, k as int)),
                decreases items@.len() - k,
            {
                assert(decreases_to!(*value => value->Array_0));
                assert(decreases_to!(value->Array_0 => value->Array_0@));
                assert(decreases_to!(items@ => items@[k as int]));
                push_open_tag(out, "item");
                push_xml_content(&items[k], out);
                push_close_tag(out, "item");
                let ghost next = items@.subrange(0, k + 1);
                assert(next.subrange(0, k as int) =~= items@.subrange(0, k as int));
                assert(next[k as int] == items@[k as int]);
                assert(out@ =~= start + items_xml(next));
                k = k + 1;
            }
            assert(items@.subrange(0, items@.len() as int) =~= items@);
        },
        _ => {
            let text = value_to_xml_string(value);
            push_str(out, text.as_str());
        },
    }
}

/// The XML content of a value.
pub fn serialize_value_to_xml_content(value: &Json) -> (r: Result<String, DataflowError>)
    ensures
        r matches Ok(s) && s@ == xml_content(*value),
{
    let mut out = String::new();
    push_xml_content(value, &mut out);
    assert(out@ =~= xml_content(*value));
    Ok(out)
}

/// A value as an XML document under `root_element`.
pub open spec fn xml_document(value: Json, root: Seq<char>) -> Seq<char> {
    open_tag(root) + xml_content(value) + close_tag(root)
}

/// Convert a value to an XML string under `root_element`: an object's keys
/// and an array's `<item>`s inside the root, or a scalar's text.
pub fn json_to_xml(value: &Json, root_element: &str) -> (r: Result<String, DataflowError>)
    ensures
        r matches Ok(s) && s@ == xml_document(*value, root_element@),
{
    let mut out = String::new();
    push_open_tag(&mut out, root_element);
    push_xml_content(value, &mut out);
    push_close_tag(&mut out, root_element);
    assert(out@ =~= xml_document(*value, root_element@));
    Ok(out)
}

/// Whether `c` may appear in a sanitized name after its first character.
pub open spec fn name_body_char(c: char) -> bool {
    ascii_alnum(c) || c == '-' || c == '_' || c == '.'
}

/// Escaped text holds no markup: no `<`, `>`, `"` or `'` survives, so a
/// string value can never open or close an element or an attribute.
pub proof fn lemma_escaped_has_no_markup(s: Seq<char>)
    ensures
        forall|i: int|
            0 <= i < escaped(s).len() ==> {
                let c = #[trigger] escaped(s)[i];
                c != '<' && c != '>' && c != '"' && c != '\''
            },
    decreases s.len(),
{
    reveal_strlit("&amp;");
    reveal_strlit("&lt;");
    reveal_strlit("&gt;");
    reveal_strlit("&quot;");
    reveal_strlit("&apos;");
    if s.len() > 0 {
        lemma_escaped_has_no_markup(s.drop_last());
        let head = escaped(s.drop_last());
        let tail = escape_char(s.last());
        assert forall|i: int| 0 <= i < escaped(s).len() implies {
            let c = #[trigger] escaped(s)[i];
            c != '<' && c != '>' && c != '"' && c != '\''
        } by {
            if i < head.len() {
                assert(escaped(s)[i] == head[i]);
            } else {
                assert(escaped(s)[i] == tail[i - head.len()]);
            }
        }
    }
}

/// A sanitized name is a valid XML name: never empty, starting with a
/// letter or `_`, and made only of letters, digits, `-`, `_` and `.`.
pub proof fn lemma_sanitized_is_a_name(name: Seq<char>)
    ensures
        sanitized(name).len() > 0,
        ascii_alpha(sanitized(name)[0]) || sanitized(name)[0] == '_',
        forall|i: int| 0 <= i < sanitized(name).len() ==> name_body_char(#[trigger] sanitized(name)[i]),
{
    reveal_strlit("_element");
    if name.len() > 0 {
        lemma_sanitized_prefix(name, name.len() as int);
    }
}

proof fn lemma_sanitized_prefix(name: Seq<char>, k: int)
    requires
        0 < k <= name.len(),
    ensures
        sanitized_prefix(name, k).len() > 0,
        ascii_alpha(sanitized_prefix(name, k)[0]) || sanitized_prefix(name, k)[0] == '_',
        forall|i: int|
            0 <= i < sanitized_prefix(name, k).len() ==> name_body_char(
                #[trigger] sanitized_prefix(name, k)[i],
            ),
    decreases k,
{
    if k == 1 {
        assert(sanitized_prefix(name, 0) =~= Seq::<char>::empty());
        assert(sanitized_prefix(name, 1) =~= name_char(name[0], true));
    } else {
        lemma_sanitized_prefix(name, k - 1);
        let head = sanitized_prefix(name, k - 1);
        let tail = name_char(name[k - 1], false);
        assert(sanitized_prefix(name, k) == head + tail);
        assert(sanitized_prefix(name, k)[0] == head[0]);
        assert forall|i: int| 0 <= i < sanitized_prefix(name, k).len() implies name_body_char(
            #[trigger] sanitized_prefix(name, k)[i],
        ) by {
            if i < head.len() {
                assert(sanitized_prefix(name, k)[i] == head[i]);
            } else {
                assert(sanitized_prefix(name, k)[i] == tail[i - head.len()]);
            }
        }
    }
}

/// Whether `c` is an ASCII digit.
pub open spec fn ascii_digit(c: char) -> bool {
    '0' <= c && c <= '9'
}

proof fn lemma_sanitized_prefix_len(name: Seq<char>, k: int)
    requires
        0 < k <= name.len(),
    ensures
        sanitized_prefix(name, k).len() == k + if ascii_digit(name[0]) { 1int } else { 0int },
    decreases k,
{
    if k == 1 {
        assert(sanitized_prefix(name, 0) =~= Seq::<char>::empty());
        assert(sanitized_prefix(name, 1) =~= name_char(name[0], true));
    } else {
        lemma_sanitized_prefix_len(name, k - 1);
    }
}

/// Sanitizing keeps a non-empty name's length, plus one for a leading
/// digit (which gains a `_` before it).
pub proof fn lemma_sanitized_length(name: Seq<char>)
    requires
        name.len() > 0,
    ensures
        sanitized(name).len() == name.len() + if ascii_digit(name[0]) { 1int } else { 0int },
{
    lemma_sanitized_prefix_len(name, name.len() as int);
}

/// A name that is already valid is kept, character by character.
proof fn lemma_valid_prefix_is_kept(t: Seq<char>, k: int)
    requires
        0 < k <= t.len(),
        ascii_alpha(t[0]) || t[0] == '_',
        forall|i: int| 0 <= i < t.len() ==> name_body_char(#[trigger] t[i]),
    ensures
        sanitized_prefix(t, k) == t.take(k),
    decreases k,
{
    if k == 1 {
        assert(sanitized_prefix(t, 0) =~= Seq::<char>::empty());
        assert(sanitized_prefix(t, 1) =~= t.take(1));
    } else {
        lemma_valid_prefix_is_kept(t, k - 1);
        assert(name_body_char(t[k - 1]));
        assert(sanitized_prefix(t, k) =~= t.take(k));
    }
}

/// Sanitizing a sanitized name changes nothing.
pub proof fn lemma_sanitized_is_idempotent(name: Seq<char>)
    ensures
        sanitized(sanitized(name)) == sanitized(name),
{
    let t = sanitized(name);
    lemma_sanitized_is_a_name(name);
    lemma_valid_prefix_is_kept(t, t.len() as int);
    assert(t.take(t.len() as int) =~= t);
}

/// The JSON text a `publish_json` stores for the value `v`: indented by
/// `serde_json` when `pretty`, else the value's compact form.
pub open spec fn published_json(v: Json, pretty: bool) -> Seq<char> {
    if pretty {
        pretty_text(v.view_json())
    } else {
        json_text_of(v)
    }
}

/// Whether a publish of `text` at `data.{target}` turned the message
/// `before` into `after`, recording the single change `changes`.
pub open spec fn stored_at(
    before: Message,
    after: Message,
    target: Seq<char>,
    text: Seq<char>,
    changes: Seq<Change>,
) -> bool {
    &&& after.ctx().view_json() == written(
        before.ctx().view_json(),
        DataRoot::rooted(target).1,
        JsonView::Str(text),
    )
    &&& changes.len() == 1
    &&& changes[0].path@ == DataRoot::rooted(target).0
    &&& changes[0].old_value.view_json() == match nested(before.ctx(), DataRoot::rooted(target).0) {
        Some(v) => v.view_json(),
        None => JsonView::Null,
    }
    &&& changes[0].new_value.view_json() == JsonView::Str(text)
}

/// Store `text` at `data.{target}`, recording the change.
fn store_text(message: &mut Message, target: &str, text: String) -> (r: Vec<Change>)
    ensures
        stored_at(*old(message), *final(message), target@, text@, r@),
        final(message).payload_value() == old(message).payload_value(),
        final(message).recorded_errors() == old(message).recorded_errors(),
        final(message).trail() == old(message).trail(),
{
    let (dotted, parts) = DataRoot::compute(target);
    let before = match get_nested_value(message.context(), dotted.as_str()) {
        Some(v) => v.copy(),
        None => Json::Null,
    };
    let value = Json::Str(text);
    let mut changes: Vec<Change> = Vec::new();
    changes.push(Change { path: dotted, old_value: before, new_value: value.copy() });
    let mut ctx = message.context().copy();
    write_at(&mut ctx, &parts, value);
    message.replace_context(ctx);
    changes
}

/// Run `publish_json`: the value at `data.{source}`, which must be found
/// and not `null`, written as JSON text (indented when `pretty`) at
/// `data.{target}`, with the change recorded. A missing source leaves the
/// message as it was.
pub fn execute_publish_json(message: &mut Message, config: &PublishConfig) -> (r: Result<(usize, Vec<Change>), DataflowError>)
    ensures
        final(message).payload_value() == old(message).payload_value(),
        final(message).recorded_errors() == old(message).recorded_errors(),
        final(message).trail() == old(message).trail(),
        match publish_source_at(root_field(old(message).ctx(), "data"@), config.source@) {
            Some(v) => if v is Null {
                r matches Err(DataflowError::Validation(m)) && m@ == missing_source_message(
                    PublishFormat::Json,
                    config.source@,
                ) && *final(message) == *old(message)
            } else {
                r matches Ok((status, changes)) && status == 200 && stored_at(
                    *old(message),
                    *final(message),
                    config.target@,
                    published_json(v, config.pretty),
                    changes@,
                )
            },
            None => r matches Err(DataflowError::Validation(m)) && m@ == missing_source_message(
                PublishFormat::Json,
                config.source@,
            ) && *final(message) == *old(message),
        },
{
    let text = match config.source_value(message, PublishFormat::Json) {
        Ok(v) => if config.pretty {
            pretty_json(&to_engine(v))
        } else {
            json_text(v)
        },
        Err(e) => {
            return Err(e);
        },
    };
    let changes = store_text(message, config.target.as_str(), text);
    Ok((200, changes))
}

/// Run `publish_xml`: the value at `data.{source}`, which must be found and
/// not `null`, written as an XML document under the root element at
/// `data.{target}`, with the change recorded. A missing source leaves the
/// message as it was.
pub fn execute_publish_xml(message: &mut Message, config: &PublishConfig) -> (r: Result<(usize, Vec<Change>), DataflowError>)
    ensures
        final(message).payload_value() == old(message).payload_value(),
        final(message).recorded_errors() == old(message).recorded_errors(),
        final(message).trail() == old(message).trail(),
        match publish_source_at(root_field(old(message).ctx(), "data"@), config.source@) {
            Some(v) => if v is Null {
                r matches Err(DataflowError::Validation(m)) && m@ == missing_source_message(
                    PublishFormat::Xml,
                    config.source@,
                ) && *final(message) == *old(message)
            } else {
                r matches Ok((status, changes)) && status == 200 && stored_at(
                    *old(message),
                    *final(message),
                    config.target@,
                    xml_document(v, config.root_element@),
                    changes@,
                )
            },
            None => r matches Err(DataflowError::Validation(m)) && m@ == missing_source_message(
                PublishFormat::Xml,
                config.source@,
            ) && *final(message) == *old(message),
        },
{
    let text = match config.xml_output(message) {
        Ok(t) => t,
        Err(e) => {
            return Err(e);
        },
    };
    let changes = store_text(message, config.target.as_str(), text);
    Ok((200, changes))
}

/// Where a publish finds its source in `data`: first the key spelled as
/// the whole source; then the dotted path it names; then, for a source
/// `data.<path>`, the path after `data.`, which points back into `data`.
pub proof fn lemma_publish_source_lookup(data: Json, path: Seq<char>, source: Seq<char>)
    ensures
        data.field(source) is Some ==> publish_source_at(data, source) == data.field(source),
        data.field(source) is None ==> (nested(data, source) is Some ==> publish_source_at(
            data,
            source,
        ) == nested(data, source)),
        data.field("data."@ + path) is None && nested(data, "data."@ + path) is None
            ==> publish_source_at(data, "data."@ + path) == nested(data, path),
{
    reveal_strlit("data.");
    let s = "data."@ + path;
    assert(s.take(5) =~= "data."@);
    assert(s.skip(5) =~= path);
}

} // verus!

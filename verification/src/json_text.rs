//! A library value as compact JSON text, the form a compact `publish_json`
//! stores: entries in the order the value holds them, no whitespace,
//! strings with `"` and `\` escaped and every control character written as
//! an escape.

use vstd::prelude::*;
use crate::json::{Json, Number};
use crate::text::{decimal, push_char, push_decimal, push_signed_decimal, push_str, signed_decimal};

verus! {

/// A hexadecimal digit, lower case.
pub open spec fn hex_digit(d: nat) -> char {
    if d < 10 {
        ((d + 48) as u32) as char
    } else {
        ((d + 87) as u32) as char
    }
}

/// One character of a string as JSON text.
pub open spec fn escape_json_char(c: char) -> Seq<char> {
    if c == '"' {
        seq!['\\', '"']
    } else if c == '\\' {
        seq!['\\', '\\']
    } else if c == '\n' {
        seq!['\\', 'n']
    } else if c == '\r' {
        seq!['\\', 'r']
    } else if c == '\t' {
        seq!['\\', 't']
    } else if c == '\u{8}' {
        seq!['\\', 'b']
    } else if c == '\u{c}' {
        seq!['\\', 'f']
    } else if (c as u32) < 0x20 {
        seq!['\\', 'u', '0', '0', hex_digit((c as u32 / 16) as nat), hex_digit((c as u32 % 16) as nat)]
    } else {
        seq![c]
    }
}

/// The characters of a string as JSON text, without the quotes.
pub open spec fn escaped_json(s: Seq<char>) -> Seq<char>
    decreases s.len(),
{
    if s.len() == 0 {
        Seq::empty()
    } else {
        escaped_json(s.drop_last()) + escape_json_char(s.last())
    }
}

/// A string as JSON text.
pub open spec fn string_text(s: Seq<char>) -> Seq<char> {
    seq!['"'] + escaped_json(s) + seq!['"']
}

/// A number as JSON text.
pub open spec fn number_json(n: Number) -> Seq<char> {
    match n {
        Number::Int(i) => signed_decimal(i as int),
        Number::UInt(u) => decimal(u as nat),
        Number::Float(t) => t@,
    }
}

/// A value as compact JSON text.
pub open spec fn json_text_of(value: Json) -> Seq<char>
    decreases value,
{
    match value {
        Json::Null => "null"@,
        Json::Bool(b) => if b {
            "true"@
        } else {
            "false"@
        },
        Json::Num(n) => number_json(n),
        Json::Str(s) => string_text(s@),
        Json::Array(items) => seq!['['] + items_text(items@) + seq![']'],
        Json::Object(entries) => seq!['{'] + entries_text(entries@) + seq!['}'],
    }
}

/// An array's items as JSON text, separated by commas.
pub open spec fn items_text(items: Seq<Json>) -> Seq<char>
    decreases items,
{
    if items.len() == 0 {
        Seq::empty()
    } else {
        let sep = if items.len() > 1 {
            seq![',']
        } else {
            Seq::<char>::empty()
        };
        items_text(items.subrange(0, items.len() - 1)) + sep + json_text_of(items[items.len() - 1])
    }
}

/// An object's entries as JSON text, `"key":value`, separated by commas.
pub open spec fn entries_text(entries: Seq<(String, Json)>) -> Seq<char>
    decreases entries,
{
    if entries.len() == 0 {
        Seq::empty()
    } else {
        let sep = if entries.len() > 1 {
            seq![',']
        } else {
            Seq::<char>::empty()
        };
        let last = entries[entries.len() - 1];
        entries_text(entries.subrange(0, entries.len() - 1)) + sep + string_text(last.0@) + seq![':']
            + json_text_of(last.1)
    }
}

fn hex(d: u32) -> (c: char)
    requires
        d < 16,
    ensures
        c == hex_digit(d as nat),
{
    if d < 10 {
        match d {
            0 => '0',
            1 => '1',
            2 => '2',
            3 => '3',
            4 => '4',
            5 => '5',
            6 => '6',
            7 => '7',
            8 => '8',
            _ => '9',
        }
    } else {
        match d {
            10 => 'a',
            11 => 'b',
            12 => 'c',
            13 => 'd',
            14 => 'e',
            _ => 'f',
        }
    }
}

/// Append `s` as JSON text, quotes included.
fn push_string_text(out: &mut String, s: &str)
    ensures
        final(out)@ == old(out)@ + string_text(s@),
{
    let ghost start = out@;
    push_char(out, '"');
    let n = s.unicode_len();
    let mut i: usize = 0;
    assert(s@.take(0) =~= Seq::<char>::empty());
    while i < n
        invariant
            n == s@.len(),
            i <= n,
            out@ == start + seq!['"'] + escaped_json(s@.take(i as int)),
        decreases n - i,
    {
        let c = s.get_char(i);
        let ghost before = out@;
        if c == '"' {
            push_char(out, '\\');
            push_char(out, '"');
        } else if c == '\\' {
            push_char(out, '\\');
            push_char(out, '\\');
        } else if c == '\n' {
            push_char(out, '\\');
            push_char(out, 'n');
        } else if c == '\r' {
            push_char(out, '\\');
            push_char(out, 'r');
        } else if c == '\t' {
            push_char(out, '\\');
            push_char(out, 't');
        } else if c == '\u{8}' {
            push_char(out, '\\');
            push_char(out, 'b');
        } else if c == '\u{c}' {
            push_char(out, '\\');
            push_char(out, 'f');
        } else if (c as u32) < 0x20 {
            let v: u32 = c as u32;
            push_char(out, '\\');
            push_char(out, 'u');
            push_char(out, '0');
            push_char(out, '0');
            push_char(out, hex(v / 16));
            push_char(out, hex(v % 16));
        } else {
            push_char(out, c);
        }
        assert(out@ =~= before + escape_json_char(c));
        assert(s@.take(i + 1).drop_last() =~= s@.take(i as int));
        i = i + 1;
    }
    assert(s@.take(n as int) =~= s@);
    push_char(out, '"');
    assert(out@ =~= start + string_text(s@));
}

/// Append `value` as compact JSON text.
fn push_json_text(value: &Json, out: &mut String)
    ensures
        final(out)@ == old(out)@ + json_text_of(*value),
    decreases value,
{
    let ghost start = out@;
    match value {
        Json::Null => push_str(out, "null"),
        Json::Bool(b) => {
            if *b {
                push_str(out, "true");
            } else {
                push_str(out, "false");
            }
        },
        Json::Num(n) => match n {
            Number::Int(i) => push_signed_decimal(out, *i),
            Number::UInt(u) => push_decimal(out, *u),
            Number::Float(t) => push_str(out, t.as_str()),
        },
        Json::Str(s) => push_string_text(out, s.as_str()),
        Json::Array(items) => {
            push_char(out, '[');
            let mut k: usize = 0;
            assert(items@.subrange(0, 0) =~= Seq::<Json>::empty());
            while k < items.len()
                invariant
                    k <= items@.len(),
                    *value == Json::Array(*items),
                    out@ == start + seq!['['] + items_text(items@.subrange(0, k as int)),
                decreases items@.len() - k,
            {
                assert(decreases_to!(*value => value->Array_0));
                assert(decreases_to!(value->Array_0 => value->Array_0@));
                assert(decreases_to!(items@ => items@[k as int]));
                if k > 0 {
                    push_char(out, ',');
                }
                push_json_text(&items[k], out);
                let ghost next = items@.subrange(0, k + 1);
                assert(next.subrange(0, k as int) =~= items@.subrange(0, k as int));
                assert(next[k as int] == items@[k as int]);
                assert(out@ =~= start + seq!['['] + items_text(next));
                k = k + 1;
            }
            assert(items@.subrange(0, items@.len() as int) =~= items@);
            push_char(out, ']');
        },
        Json::Object(entries) => {
            push_char(out, '{');
            let mut k: usize = 0;
            assert(entries@.subrange(0, 0) =~= Seq::<(String, Json)>::empty());
            while k < entries.len()
                invariant
                    k <= entries@.len(),
                    *value == Json::Object(*entries),
                    out@ == start + seq!['{'] + entries_text(entries@.subrange(0, k as int)),
                decreases entries@.len() - k,
            {
                assert(decreases_to!(*value => value->Object_0));
                assert(decreases_to!(value->Object_0 => value->Object_0@));
                assert(decreases_to!(entries@ => entries@[k as int]));
                assert(decreases_to!(entries@[k as int] => entries@[k as int].1));
                if k > 0 {
                    push_char(out, ',');
                }
                push_string_text(out, entries[k].0.as_str());
                push_char(out, ':');
                push_json_text(&entries[k].1, out);
                let ghost next = entries@.subrange(0, k + 1);
                assert(next.subrange(0, k as int) =~= entries@.subrange(0, k as int));
                assert(next[k as int] == entries@[k as int]);
                assert(out@ =~= start + seq!['{'] + entries_text(next));
                k = k + 1;
            }
            assert(entries@.subrange(0, entries@.len() as int) =~= entries@);
            push_char(out, '}');
        },
    }
    assert(out@ =~= start + json_text_of(*value));
}

/// `value` as compact JSON text.
pub fn json_text(value: &Json) -> (r: String)
    ensures
        r@ == json_text_of(*value),
{
    let mut out = String::new();
    push_json_text(value, &mut out);
    assert(out@ =~= json_text_of(*value));
    out
}

/// Texts joined with commas: the first, then `,` and the next, and so on.
pub open spec fn comma_joined(parts: Seq<Seq<char>>) -> Seq<char>
    decreases parts.len(),
{
    if parts.len() == 0 {
        Seq::empty()
    } else if parts.len() == 1 {
        parts[0]
    } else {
        parts[0] + seq![','] + comma_joined(parts.drop_first())
    }
}

/// Joining one more text adds a comma and that text.
proof fn lemma_comma_joined_push(parts: Seq<Seq<char>>, x: Seq<char>)
    ensures
        comma_joined(parts.push(x)) == if parts.len() == 0 {
            x
        } else {
            comma_joined(parts) + seq![','] + x
        },
    decreases parts.len(),
{
    if parts.len() == 0 {
        assert(parts.push(x) =~= seq![x]);
    } else if parts.len() == 1 {
        assert(parts.push(x).drop_first() =~= seq![x]);
        assert(comma_joined(parts.push(x).drop_first()) == x);
    } else {
        assert(parts.push(x).drop_first() =~= parts.drop_first().push(x));
        lemma_comma_joined_push(parts.drop_first(), x);
        assert(comma_joined(parts.push(x)) =~= parts[0] + seq![','] + (comma_joined(
            parts.drop_first(),
        ) + seq![','] + x));
    }
}

/// The texts of an array's items.
pub open spec fn item_texts(items: Seq<Json>) -> Seq<Seq<char>> {
    items.map_values(|v: Json| json_text_of(v))
}

/// The texts of an object's entries, each `"key":value`.
pub open spec fn entry_texts(entries: Seq<(String, Json)>) -> Seq<Seq<char>> {
    entries.map_values(|e: (String, Json)| string_text(e.0@) + seq![':'] + json_text_of(e.1))
}

proof fn lemma_items_text_joined(items: Seq<Json>)
    ensures
        items_text(items) == comma_joined(item_texts(items)),
    decreases items.len(),
{
    if items.len() > 0 {
        let prefix = items.subrange(0, items.len() - 1);
        lemma_items_text_joined(prefix);
        assert(item_texts(items) =~= item_texts(prefix).push(json_text_of(items[items.len() - 1])));
        lemma_comma_joined_push(item_texts(prefix), json_text_of(items[items.len() - 1]));
        if items.len() == 1 {
            assert(items_text(prefix) == Seq::<char>::empty());
            assert(items_text(items) =~= json_text_of(items[0]));
        } else {
            assert(items_text(items) =~= comma_joined(item_texts(prefix)) + seq![','] + json_text_of(
                items[items.len() - 1],
            ));
        }
    } else {
        assert(item_texts(items) =~= Seq::<Seq<char>>::empty());
    }
}

proof fn lemma_entries_text_joined(entries: Seq<(String, Json)>)
    ensures
        entries_text(entries) == comma_joined(entry_texts(entries)),
    decreases entries.len(),
{
    if entries.len() > 0 {
        let prefix = entries.subrange(0, entries.len() - 1);
        let last = entries[entries.len() - 1];
        let t = string_text(last.0@) + seq![':'] + json_text_of(last.1);
        lemma_entries_text_joined(prefix);
        assert(entry_texts(entries) =~= entry_texts(prefix).push(t));
        lemma_comma_joined_push(entry_texts(prefix), t);
        if entries.len() == 1 {
            assert(entries_text(prefix) == Seq::<char>::empty());
            assert(entries_text(entries) =~= t);
        } else {
            assert(entries_text(entries) =~= comma_joined(entry_texts(prefix)) + seq![','] + t);
        }
    } else {
        assert(entry_texts(entries) =~= Seq::<Seq<char>>::empty());
    }
}

/// The compact text of a value, as JSON writes it: `null`, `true`,
/// `false`, a string in quotes with its characters escaped, an array as
/// `[` then its items' texts separated by commas then `]`, and an object
/// as `{` then its entries' `"key":value` texts separated by commas then
/// `}`.
pub proof fn lemma_json_text_shape(v: Json)
    ensures
        v is Null ==> json_text_of(v) == "null"@,
        v matches Json::Bool(b) ==> json_text_of(v) == if b {
            "true"@
        } else {
            "false"@
        },
        v matches Json::Str(s) ==> json_text_of(v) == seq!['"'] + escaped_json(s@) + seq!['"'],
        v matches Json::Array(items) ==> json_text_of(v) == seq!['['] + comma_joined(
            item_texts(items@),
        ) + seq![']'],
        v matches Json::Object(entries) ==> json_text_of(v) == seq!['{'] + comma_joined(
            entry_texts(entries@),
        ) + seq!['}'],
{
    match v {
        Json::Array(items) => lemma_items_text_joined(items@),
        Json::Object(entries) => lemma_entries_text_joined(entries@),
        _ => {},
    }
}

/// A string's text keeps its characters in order: the text of a string
/// with one more character is the text of the string, then that
/// character's own text; a character other than `"`, `\\` and the control
/// characters below U+0020 is written as itself, and `"` and `\\` are
/// written after a backslash.
pub proof fn lemma_escaped_json_push(s: Seq<char>, c: char)
    ensures
        escaped_json(s.push(c)) == escaped_json(s) + escape_json_char(c),
        c != '"' && c != '\\' && (c as u32) >= 0x20 ==> escape_json_char(c) == seq![c],
        escape_json_char('"') == seq!['\\', '"'],
        escape_json_char('\\') == seq!['\\', '\\'],
{
    assert(s.push(c).drop_last() =~= s);
}

/// Control characters are written as escapes: `\n`, `\r`, `\t`, `\b` and
/// `\f` by name, every other one below U+0020 as `\u00` and two lower-case
/// hexadecimal digits of its code.
pub proof fn lemma_escape_control_chars(c: char)
    ensures
        escape_json_char('\n') == seq!['\\', 'n'],
        escape_json_char('\r') == seq!['\\', 'r'],
        escape_json_char('\t') == seq!['\\', 't'],
        escape_json_char('\u{8}') == seq!['\\', 'b'],
        escape_json_char('\u{c}') == seq!['\\', 'f'],
        (c as u32) < 0x20 && c != '\n' && c != '\r' && c != '\t' && c != '\u{8}' && c
            != '\u{c}' ==> {
            let e = escape_json_char(c);
            &&& e.len() == 6
            &&& e[0] == '\\' && e[1] == 'u' && e[2] == '0' && e[3] == '0'
            &&& e[4] == hex_digit((c as u32 / 16) as nat)
            &&& e[5] == hex_digit((c as u32 % 16) as nat)
        },
{
}

/// The hexadecimal digits are `0`-`9` for values below ten and the lower-case
/// letters `a`-`f` for ten to fifteen.
pub proof fn lemma_hex_digit(d: nat)
    requires
        d < 16,
    ensures
        d < 10 ==> hex_digit(d) as u32 == '0' as u32 + d,
        10 <= d ==> hex_digit(d) as u32 == 'a' as u32 + (d - 10),
{
}

} // verus!

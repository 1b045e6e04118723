//! Dotted context paths: `data.user.name`, `temp_data.rows.#20.total`.
//!
//! A path is split on `.` into segments. A segment naming an object key may
//! carry one leading `#`, the explicit "object key, not array index" hint,
//! which is stripped at lookup; a segment of decimal digits indexes an array.

use vstd::prelude::*;
use crate::json::{Json, lookup};
use crate::text::{owned, push_str, str_eq};

verus! {

/// Index of the first `.` in `s`, or `s.len()` when there is none.
pub open spec fn first_dot(s: Seq<char>) -> nat
    decreases s.len(),
{
    if s.len() == 0 {
        0
    } else if s[0] == '.' {
        0
    } else {
        1 + first_dot(s.drop_first())
    }
}

pub proof fn lemma_first_dot(s: Seq<char>)
    ensures
        first_dot(s) <= s.len(),
        first_dot(s) < s.len() ==> s[first_dot(s) as int] == '.',
        forall|j: int| 0 <= j < first_dot(s) ==> s[j] != '.',
    decreases s.len(),
{
    if s.len() > 0 && s[0] != '.' {
        lemma_first_dot(s.drop_first());
        assert forall|j: int| 0 <= j < first_dot(s) implies s[j] != '.' by {
            if j > 0 {
                assert(s[j] == s.drop_first()[j - 1]);
            }
        }
    }
}

/// The segments of a dotted path, in order. A path with no `.` is one
/// segment; `""` is one empty segment.
pub open spec fn split_dots(s: Seq<char>) -> Seq<Seq<char>>
    decreases s.len(),
{
    let i = first_dot(s);
    if i >= s.len() {
        seq![s]
    } else {
        seq![s.take(i as int)] + split_dots(s.skip(i + 1 as int))
    }
}

/// Index of the first `.` in `s`, or its length.
pub fn find_dot(s: &str) -> (r: usize)
    ensures
        r == first_dot(s@),
{
    proof {
        lemma_first_dot(s@);
    }
    let n = s.unicode_len();
    let mut i: usize = 0;
    while i < n
        invariant
            n == s@.len(),
            i <= n,
            forall|j: int| 0 <= j < i ==> s@[j] != '.',
            first_dot(s@) <= n,
            first_dot(s@) < n ==> s@[first_dot(s@) as int] == '.',
            forall|j: int| 0 <= j < first_dot(s@) ==> s@[j] != '.',
        decreases n - i,
    {
        if s.get_char(i) == '.' {
            return i;
        }
        i = i + 1;
    }
    i
}

/// Split a dotted path into its segments.
pub fn split_path(s: &str) -> (parts: Vec<String>)
    ensures
        parts@.map_values(|p: String| p@) == split_dots(s@),
    decreases s@.len(),
{
    proof {
        lemma_first_dot(s@);
    }
    let n = s.unicode_len();
    let i = find_dot(s);
    if i >= n {
        let mut parts: Vec<String> = Vec::new();
        parts.push(owned(s));
        assert(parts@.map_values(|p: String| p@) =~= split_dots(s@));
        return parts;
    }
    let head = s.substring_char(0, i);
    let tail = s.substring_char(i + 1, n);
    assert(tail@ =~= s@.skip(i + 1));
    assert(head@ =~= s@.take(i as int));
    let rest = split_path(tail);
    let mut parts: Vec<String> = Vec::new();
    parts.push(owned(head));
    let mut k: usize = 0;
    while k < rest.len()
        invariant
            parts@.len() == k + 1,
            parts@[0]@ == head@,
            k <= rest@.len(),
            forall|j: int| 0 <= j < k ==> #[trigger] parts@[j + 1]@ == rest@[j]@,
        decreases rest@.len() - k,
    {
        parts.push(rest[k].clone());
        k = k + 1;
    }
    assert(rest@.map_values(|p: String| p@) == split_dots(s@.skip(i + 1)));
    assert forall|j: int| 1 <= j < parts@.len() implies parts@[j]@ == rest@[j - 1]@ by {
        assert(parts@[(j - 1) + 1]@ == rest@[j - 1]@);
    }
    assert(parts@.map_values(|p: String| p@) =~= seq![head@] + rest@.map_values(|p: String| p@));
    parts
}

/// A segment with one leading `#` stripped, when present.
pub open spec fn strip_hash_spec(part: Seq<char>) -> Seq<char> {
    if part.len() > 0 && part[0] == '#' {
        part.skip(1)
    } else {
        part
    }
}

/// Strip exactly one leading `#` from an object-key path segment (`"#20"`
/// becomes `"20"`, `"##"` becomes `"#"`).
pub fn strip_hash(part: &str) -> (r: &str)
    ensures
        r@ == strip_hash_spec(part@),
{
    let n = part.unicode_len();
    if n > 0 && part.get_char(0) == '#' {
        let r = part.substring_char(1, n);
        assert(r@ =~= part@.skip(1));
        r
    } else {
        part
    }
}

/// The value of a non-empty run of decimal digits.
pub open spec fn digits_value(s: Seq<char>) -> nat
    decreases s.len(),
{
    if s.len() == 0 {
        0
    } else {
        digits_value(s.drop_last()) * 10 + digit_of(s.last())
    }
}

/// The value of a decimal digit character.
pub open spec fn digit_of(c: char) -> nat {
    (c as int - '0' as int) as nat
}

/// Whether `s` is a non-empty run of decimal digits.
pub open spec fn all_digits(s: Seq<char>) -> bool {
    s.len() > 0 && forall|i: int| 0 <= i < s.len() ==> '0' <= #[trigger] s[i] && s[i] <= '9'
}

/// The array index a segment names: a run of decimal digits.
pub open spec fn index_of_segment(s: Seq<char>) -> Option<nat> {
    if all_digits(s) {
        Some(digits_value(s))
    } else {
        None
    }
}

/// The array index a segment names, when it is a run of digits that fits a
/// `usize`.
pub fn parse_index(s: &str) -> (r: Option<usize>)
    ensures
        match r {
            Some(i) => index_of_segment(s@) == Some(i as nat),
            None => index_of_segment(s@) is None || index_of_segment(s@).unwrap() > usize::MAX,
        },
{
    let n = s.unicode_len();
    if n == 0 {
        return None;
    }
    let mut value: usize = 0;
    let mut i: usize = 0;
    while i < n
        invariant
            n == s@.len(),
            n > 0,
            i <= n,
            forall|j: int| 0 <= j < i ==> '0' <= #[trigger] s@[j] && s@[j] <= '9',
            value == digits_value(s@.take(i as int)),
        decreases n - i,
    {
        let c = s.get_char(i);
        if c < '0' || c > '9' {
            return None;
        }
        let d = (c as u32 - '0' as u32) as usize;
        assert(s@.take(i + 1).drop_last() =~= s@.take(i as int));
        assert(d == digit_of(s@[i as int]));
        if value > (usize::MAX - d) / 10 {
            proof {
                if all_digits(s@) {
                    lemma_digits_value_monotone(s@, i + 1, n as int);
                }
                assert(s@.take(n as int) =~= s@);
                assert(digits_value(s@.take(i + 1)) == value * 10 + d) by (nonlinear_arith)
                    requires
                        digits_value(s@.take(i + 1)) == digits_value(s@.take(i as int)) * 10 + d,
                        value == digits_value(s@.take(i as int)),
                ;
                assert(value * 10 + d > usize::MAX) by (nonlinear_arith)
                    requires
                        value > (usize::MAX - d) / 10,
                        d < 10,
                ;
            }
            return None;
        }
        assert(value * 10 + d <= usize::MAX) by (nonlinear_arith)
            requires
                value <= (usize::MAX - d) / 10,
                d < 10,
        ;
        value = value * 10 + d;
        i = i + 1;
    }
    assert(s@.take(n as int) =~= s@);
    Some(value)
}

proof fn lemma_digits_value_monotone(s: Seq<char>, i: int, j: int)
    requires
        0 <= i <= j <= s.len(),
        forall|k: int| 0 <= k < s.len() ==> '0' <= #[trigger] s[k] && s[k] <= '9',
    ensures
        digits_value(s.take(i)) <= digits_value(s.take(j)),
    decreases j - i,
{
    if i < j {
        lemma_digits_value_monotone(s, i, j - 1);
        assert(s.take(j).drop_last() =~= s.take(j - 1));
        assert(digits_value(s.take(j)) == digits_value(s.take(j - 1)) * 10 + digit_of(s[j - 1]));
        assert(digits_value(s.take(j - 1)) <= digits_value(s.take(j - 1)) * 10 + digit_of(s[j - 1]))
            by (nonlinear_arith);
    }
}

/// One step of a lookup: the child of `value` a segment names.
pub open spec fn child_at(value: Json, segment: Seq<char>) -> Option<Json> {
    match value {
        Json::Object(entries) => lookup(entries@, strip_hash_spec(segment)),
        Json::Array(items) => match index_of_segment(segment) {
            Some(i) => if i < items@.len() {
                Some(items@[i as int])
            } else {
                None
            },
            None => None,
        },
        _ => None,
    }
}

/// The value reached by following `segments` from `value`.
pub open spec fn follow(value: Json, segments: Seq<Seq<char>>) -> Option<Json>
    decreases segments.len(),
{
    if segments.len() == 0 {
        Some(value)
    } else {
        match child_at(value, segments[0]) {
            Some(child) => follow(child, segments.drop_first()),
            None => None,
        }
    }
}

/// The value at dotted `path` below `value`.
pub open spec fn nested(value: Json, path: Seq<char>) -> Option<Json> {
    follow(value, split_dots(path))
}

/// The child of `value` that `segment` names.
pub fn child<'a>(value: &'a Json, segment: &str) -> (r: Option<&'a Json>)
    ensures
        match r {
            Some(c) => child_at(*value, segment@) == Some(*c),
            None => child_at(*value, segment@) is None,
        },
{
    if value.is_object() {
        let key = strip_hash(segment);
        return value.get(key);
    }
    match value.as_array() {
        Some(items) => match parse_index(segment) {
            Some(i) => if i < items.len() {
                Some(&items[i])
            } else {
                None
            },
            None => {
                let n = items.len();
                assert(n == items@.len());
                None
            },
        },
        None => None,
    }
}

/// The value at dotted `path` below `value`.
pub fn get_nested_value<'a>(value: &'a Json, path: &str) -> (r: Option<&'a Json>)
    ensures
        match r {
            Some(v) => nested(*value, path@) == Some(*v),
            None => nested(*value, path@) is None,
        },
{
    let parts = split_path(path);
    let ghost segs = parts@.map_values(|p: String| p@);
    let mut current: &Json = value;
    let mut k: usize = 0;
    assert(segs.skip(0) =~= segs);
    while k < parts.len()
        invariant
            segs == split_dots(path@),
            segs == parts@.map_values(|p: String| p@),
            k <= parts@.len(),
            nested(*value, path@) == follow(*current, segs.skip(k as int)),
        decreases parts@.len() - k,
    {
        assert(segs.skip(k as int)[0] == parts@[k as int]@);
        assert(segs.skip(k as int).drop_first() =~= segs.skip(k + 1));
        match child(current, parts[k].as_str()) {
            Some(c) => {
                current = c;
            },
            None => {
                return None;
            },
        }
        k = k + 1;
    }
    assert(segs.skip(k as int).len() == 0);
    Some(current)
}

/// `root` and the segments of `rest` as one path: `["data", "a", "b"]` for
/// `("data", "a.b")`.
pub open spec fn path_parts(root: Seq<char>, rest: Seq<char>) -> Seq<Seq<char>> {
    seq![root] + split_dots(rest)
}

/// `root` and the segments of `rest` as one list of parts.
pub fn compute_path_parts(root: &str, rest: &str) -> (parts: Vec<String>)
    ensures
        parts@.map_values(|p: String| p@) == path_parts(root@, rest@),
{
    let tail = split_path(rest);
    let mut parts: Vec<String> = Vec::new();
    parts.push(owned(root));
    let mut k: usize = 0;
    while k < tail.len()
        invariant
            parts@.len() == k + 1,
            parts@[0]@ == root@,
            k <= tail@.len(),
            forall|j: int| 0 <= j < k ==> #[trigger] parts@[j + 1]@ == tail@[j]@,
        decreases tail@.len() - k,
    {
        parts.push(tail[k].clone());
        k = k + 1;
    }
    assert forall|j: int| 1 <= j < parts@.len() implies parts@[j]@ == tail@[j - 1]@ by {
        assert(parts@[(j - 1) + 1]@ == tail@[j - 1]@);
    }
    assert(parts@.map_values(|p: String| p@) =~= seq![root@] + tail@.map_values(|p: String| p@));
    parts
}

/// A path relative to `data`, as the dotted path below the context root and
/// its parts: `"orders"` is `("data.orders", ["data", "orders"])`.
pub fn compute_data_path(path: &str) -> (r: (String, Vec<String>))
    ensures
        r.0@ == "data."@ + path@,
        r.1@.map_values(|p: String| p@) == path_parts("data"@, path@),
{
    let mut dotted = owned("data.");
    push_str(&mut dotted, path);
    (dotted, compute_path_parts("data", path))
}

/// Whether `path` is the name of a context root: `data`, `metadata` or
/// `temp_data`.
pub open spec fn is_root_name(name: Seq<char>) -> bool {
    name == "data"@ || name == "metadata"@ || name == "temp_data"@
}

/// Whether `name` is a context root.
pub fn root_name(name: &str) -> (r: bool)
    ensures
        r == is_root_name(name@),
{
    str_eq(name, "data") || str_eq(name, "metadata") || str_eq(name, "temp_data")
}

/// Segments joined back into a dotted path, `.` between each two.
pub open spec fn joined_by_dots(parts: Seq<Seq<char>>) -> Seq<char>
    decreases parts.len(),
{
    if parts.len() == 0 {
        Seq::empty()
    } else if parts.len() == 1 {
        parts[0]
    } else {
        parts[0] + seq!['.'] + joined_by_dots(parts.drop_first())
    }
}

/// The first `.` of `s` is at `k` when `s` has no `.` before `k` and one
/// at `k`, or none at all when `k` is its length and it has none.
proof fn lemma_first_dot_at(s: Seq<char>, k: int)
    requires
        0 <= k <= s.len(),
        forall|j: int| 0 <= j < k ==> s[j] != '.',
        k < s.len() ==> s[k] == '.',
    ensures
        first_dot(s) == k,
    decreases s.len(),
{
    if s.len() > 0 && k > 0 {
        let t = s.drop_first();
        assert forall|j: int| 0 <= j < k - 1 implies t[j] != '.' by {
            assert(t[j] == s[j + 1]);
        }
        if k < s.len() {
            assert(t[k - 1] == s[k]);
        }
        lemma_first_dot_at(t, k - 1);
    }
}

/// Splitting a path on `.` loses nothing: there is at least one segment, no
/// segment holds a `.`, and the segments joined by `.` are the path again.
pub proof fn lemma_split_dots_joins_back(s: Seq<char>)
    ensures
        split_dots(s).len() >= 1,
        forall|i: int, j: int|
            0 <= i < split_dots(s).len() && 0 <= j < split_dots(s)[i].len() ==> #[trigger] split_dots(
                s,
            )[i][j] != '.',
        joined_by_dots(split_dots(s)) == s,
    decreases s.len(),
{
    lemma_first_dot(s);
    let i = first_dot(s);
    if i >= s.len() {
        assert(split_dots(s) =~= seq![s]);
    } else {
        let head = s.take(i as int);
        let tail = s.skip(i + 1 as int);
        lemma_split_dots_joins_back(tail);
        let parts = split_dots(s);
        assert(parts =~= seq![head] + split_dots(tail));
        assert(parts.drop_first() =~= split_dots(tail));
        assert(parts[0] == head);
        assert(s =~= head + seq!['.'] + tail);
        assert forall|a: int, b: int|
            0 <= a < parts.len() && 0 <= b < parts[a].len() implies #[trigger] parts[a][b] != '.' by {
            if a > 0 {
                assert(parts[a] == split_dots(tail)[a - 1]);
            } else {
                assert(parts[a][b] == s[b]);
            }
        }
    }
}

/// A lookup follows its path one segment at a time: a path with no `.` is
/// the child that segment names, and `segment.rest` is `rest` looked up in
/// that child, nothing when there is no such child.
pub proof fn lemma_nested_steps(value: Json, segment: Seq<char>, rest: Seq<char>)
    requires
        forall|j: int| 0 <= j < segment.len() ==> segment[j] != '.',
    ensures
        nested(value, segment) == child_at(value, segment),
        nested(value, segment + seq!['.'] + rest) == match child_at(value, segment) {
            Some(c) => nested(c, rest),
            None => None,
        },
{
    lemma_first_dot_at(segment, segment.len() as int);
    assert(split_dots(segment) =~= seq![segment]);
    assert(seq![segment].drop_first() =~= Seq::<Seq<char>>::empty());
    match child_at(value, segment) {
        Some(c) => {
            assert(follow(c, Seq::<Seq<char>>::empty()) == Some(c));
            assert(follow(value, seq![segment]) == follow(c, seq![segment].drop_first()));
        },
        None => {},
    }
    let p = segment + seq!['.'] + rest;
    assert forall|j: int| 0 <= j < segment.len() implies p[j] != '.' by {
        assert(p[j] == segment[j]);
    }
    lemma_first_dot_at(p, segment.len() as int);
    assert(p.take(segment.len() as int) =~= segment);
    assert(p.skip(segment.len() + 1 as int) =~= rest);
    let parts = split_dots(p);
    assert(parts =~= seq![segment] + split_dots(rest));
    assert(parts.drop_first() =~= split_dots(rest));
    assert(parts.len() > 0 && parts[0] == segment);
    assert(nested(value, p) == follow(value, parts));
    match child_at(value, segment) {
        Some(c) => {
            assert(follow(value, parts) == follow(c, parts.drop_first()));
            assert(follow(c, parts.drop_first()) == nested(c, rest));
            assert(nested(value, p) == nested(c, rest));
        },
        None => {
            assert(nested(value, p) is None);
        },
    }
}

} // verus!

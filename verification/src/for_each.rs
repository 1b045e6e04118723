//! Task-level fan-out: run one task's handler once per element of an array.
//!
//! The element is bound at `temp_data.<as>` and its index at
//! `temp_data.<as>_index` in each call's own copy of the message. `collect`
//! names the slot each call writes its result to and `into` the array the
//! results land in, in element order.

use vstd::prelude::*;
use crate::authoring::{debug_quoted, debug_str, empty_segment, has_empty_segment};
use crate::config::{BuiltinKind, builtin_function_kind, builtin_kind, canonical_builtin_name, canonical_name};
use crate::json::Json;
use crate::paths::{compute_path_parts, find_dot, first_dot, lemma_first_dot, path_parts};
use crate::text::{owned, push_str, str_eq, str_starts_with};

verus! {

/// Run a task's function once per element of an array.
///
/// Only handler-backed functions may fan out: built-ins run inline, and
/// JSONLogic's `map`, `filter` and `reduce` already cover per-element
/// transforms.
#[derive(Debug)]
pub struct ForEach {
    /// Evaluated once, after the task's condition. It must yield an array.
    pub over: Json,
    /// `temp_data` field holding the element in each call's view (the JSON
    /// key is `as`). The element's index is at `<as>_index` beside it.
    pub item: String,
    /// Calls in flight at once. `1`, the default, runs them one at a time.
    pub max_concurrency: usize,
    /// Context path each call writes its result to. Requires `into`.
    pub collect: Option<String>,
    /// Context path that receives the results in element order. Requires
    /// `collect`.
    pub into: Option<String>,
    /// `temp_data.<as>`, pre-split.
    pub item_parts: Vec<String>,
    /// `temp_data.<as>_index`, pre-split.
    pub index_parts: Vec<String>,
    /// `collect`, pre-split.
    pub collect_parts: Vec<String>,
    /// `into`, pre-split.
    pub into_parts: Vec<String>,
}

/// The default concurrency: one call at a time.
pub fn one() -> (r: usize)
    ensures
        r == 1,
{
    1
}

/// No path parts: what a path that is not set splits into.
pub fn no_parts() -> (r: Vec<String>)
    ensures
        r@.len() == 0,
{
    Vec::new()
}

/// Whether `path` is a field path below a root: non-empty, with no empty
/// `.`-separated segment.
pub open spec fn is_slot_path(path: Seq<char>) -> bool {
    !has_empty_segment(path)
}

/// Whether `s` starts with `prefix`.
pub open spec fn starts_with(s: Seq<char>, prefix: Seq<char>) -> bool {
    prefix.len() <= s.len() && s.subrange(0, prefix.len() as int) == prefix
}

/// Whether two context paths overlap: one is the other, or lies below it
/// (a whole segment deeper, so `temp_data.p_out` does not lie below
/// `temp_data.p`).
pub open spec fn slots_overlap(a: Seq<char>, b: Seq<char>) -> bool {
    a == b || starts_with(a, b + seq!['.']) || starts_with(b, a + seq!['.'])
}

/// The part of `path` before its first `.`, and the part after it; `None`
/// when it has none.
pub open spec fn split_once_dot(path: Seq<char>) -> Option<(Seq<char>, Seq<char>)> {
    let d = first_dot(path);
    if d < path.len() {
        Some((path.take(d as int), path.skip(d + 1 as int)))
    } else {
        None
    }
}

/// Whether `path` names a key below a context root, such as `temp_data.m`.
pub open spec fn context_path(path: Seq<char>) -> bool {
    match split_once_dot(path) {
        Some((root, rest)) => (root == "data"@ || root == "metadata"@ || root == "temp_data"@)
            && is_slot_path(rest),
        None => false,
    }
}

/// The kind of literal that `over` is, when it is a literal that can never
/// evaluate to an array; an array or an expression object can.
pub open spec fn over_literal_kind(over: Json) -> Option<Seq<char>> {
    match over {
        Json::Null => Some("null"@),
        Json::Bool(_) => Some("boolean"@),
        Json::Num(_) => Some("number"@),
        Json::Str(_) => Some("string"@),
        _ => None,
    }
}

/// A rule a `for_each` breaks: the key under `for_each` it is reported at
/// (empty for the `for_each` as a whole), and what is wrong.
pub type ProblemView = (Seq<char>, Seq<char>);

/// `temp_data.` and `slot`.
pub open spec fn temp_slot(slot: Seq<char>) -> Seq<char> {
    "temp_data."@ + slot
}

/// `<as>_index`.
pub open spec fn index_slot_of(item: Seq<char>) -> Seq<char> {
    item + "_index"@
}

/// The problem with how `collect` and `into` sit against the bindings, when
/// both are set.
pub open spec fn paths_problem(item: Seq<char>, collect: Seq<char>, into: Seq<char>) -> Option<
    ProblemView,
> {
    let binding = temp_slot(item);
    let index = temp_slot(index_slot_of(item));
    if !context_path(collect) {
        Some(
            (
                "collect"@,
                "for_each collect must be a context path below data, metadata or temp_data, got "@
                    + debug_quoted(collect),
            ),
        )
    } else if !context_path(into) {
        Some(
            (
                "into"@,
                "for_each into must be a context path below data, metadata or temp_data, got "@
                    + debug_quoted(into),
            ),
        )
    } else if slots_overlap(collect, binding) {
        Some(("collect"@, collect_overlap_message(collect, binding)))
    } else if slots_overlap(collect, index) {
        Some(("collect"@, collect_overlap_message(collect, index)))
    } else if slots_overlap(into, collect) {
        Some(("into"@, into_overlap_message(into, collect)))
    } else if slots_overlap(into, binding) {
        Some(("into"@, into_overlap_message(into, binding)))
    } else if slots_overlap(into, index) {
        Some(("into"@, into_overlap_message(into, index)))
    } else {
        None
    }
}

/// Why a result may not be collected under a binding.
pub open spec fn collect_overlap_message(collect: Seq<char>, binding: Seq<char>) -> Seq<char> {
    "for_each collect ("@ + debug_quoted(collect) + ") and "@ + debug_quoted(binding)
        + " overlap — the bindings live only in each call's copy, and a result written under one would be replayed into the message and left behind"@
}

/// Why the results array may not overlap a slot written per call.
pub open spec fn into_overlap_message(into: Seq<char>, other: Seq<char>) -> Seq<char> {
    "for_each into ("@ + debug_quoted(into) + ") and "@ + debug_quoted(other)
        + " overlap — the results array would overwrite, or be overwritten by, a slot written per call"@
}

/// Why a built-in may not fan out.
pub open spec fn inline_builtin_message(name: Seq<char>) -> Seq<char> {
    "for_each runs a handler-backed function once per element, and '"@ + name
        + "' is a built-in that runs inline — use JSONLogic's map, filter or reduce over the array instead"@
}

/// Why `over` can never yield an array.
pub open spec fn over_literal_message(kind: Seq<char>) -> Seq<char> {
    "for_each over is a "@ + kind + " literal, which can never evaluate to an array"@
}

/// Why `collect` and `into` go together.
pub open spec fn pairing_message() -> Seq<char> {
    "for_each collect and into go together: collect names what each call writes, into names the array the results land in"@
}

/// The first rule a `for_each` over the function named `function` breaks,
/// in the order the rules are checked.
pub open spec fn for_each_problem(
    over: Json,
    item: Seq<char>,
    max_concurrency: nat,
    collect: Option<Seq<char>>,
    into: Option<Seq<char>>,
    function: Seq<char>,
) -> Option<ProblemView> {
    if builtin_kind(function) == Some(BuiltinKind::SelfContained) {
        Some((""@, inline_builtin_message(canonical_name(function))))
    } else if over_literal_kind(over) is Some {
        Some(("over"@, over_literal_message(over_literal_kind(over).unwrap())))
    } else if !is_slot_path(item) {
        Some(
            (
                "as"@,
                "for_each as must be a non-empty temp_data field path, got "@ + debug_quoted(item),
            ),
        )
    } else if max_concurrency == 0 {
        Some(("max_concurrency"@, "for_each max_concurrency must be at least 1"@))
    } else {
        match (collect, into) {
            (None, None) => None,
            (Some(c), Some(i)) => paths_problem(item, c, i),
            (Some(_), None) => Some(("collect"@, pairing_message())),
            (None, Some(_)) => Some(("into"@, pairing_message())),
        }
    }
}

/// The view of an optional string.
pub open spec fn opt_string(s: Option<String>) -> Option<Seq<char>> {
    match s {
        Some(t) => Some(t@),
        None => None,
    }
}

/// The parts a context path splits into: its root and the segments below
/// it; none when the path is not set or has no `.`.
pub open spec fn context_parts(path: Option<Seq<char>>) -> Seq<Seq<char>> {
    match path {
        Some(p) => match split_once_dot(p) {
            Some((root, rest)) => path_parts(root, rest),
            None => Seq::empty(),
        },
        None => Seq::empty(),
    }
}

/// The views of a list of parts.
pub open spec fn parts_view(parts: Seq<String>) -> Seq<Seq<char>> {
    parts.map_values(|p: String| p@)
}

/// A rule an authored `for_each` breaks, and the key it is reported at.
#[derive(Debug)]
pub struct ForEachProblem {
    /// The key under `for_each` (`"max_concurrency"`), or empty when the
    /// problem is the `for_each` as a whole.
    pub field: &'static str,
    /// What is wrong.
    pub message: String,
}

/// Whether `path` is a field path: non-empty, no empty segment.
pub fn slot_path(path: &str) -> (r: bool)
    ensures
        r == is_slot_path(path@),
{
    !empty_segment(path)
}

/// Whether two context paths overlap.
pub fn overlap(a: &str, b: &str) -> (r: bool)
    ensures
        r == slots_overlap(a@, b@),
{
    if str_eq(a, b) {
        return true;
    }
    let mut b_dot = owned(b);
    push_str(&mut b_dot, ".");
    let mut a_dot = owned(a);
    push_str(&mut a_dot, ".");
    proof {
        reveal_strlit(".");
        assert(b_dot@ =~= b@ + seq!['.']);
        assert(a_dot@ =~= a@ + seq!['.']);
    }
    str_starts_with(a, b_dot.as_str()) || str_starts_with(b, a_dot.as_str())
}

/// Whether `path` names a key below a context root, such as `temp_data.m`.
pub fn is_context_path(path: &str) -> (r: bool)
    ensures
        r == context_path(path@),
{
    proof {
        lemma_first_dot(path@);
    }
    let n = path.unicode_len();
    let d = find_dot(path);
    if d >= n {
        return false;
    }
    let root = path.substring_char(0, d);
    let rest = path.substring_char(d + 1, n);
    assert(root@ =~= path@.take(d as int));
    assert(rest@ =~= path@.skip(d + 1));
    (str_eq(root, "data") || str_eq(root, "metadata") || str_eq(root, "temp_data")) && slot_path(rest)
}

/// The kind of literal `over` is, when it can never evaluate to an array.
fn literal_kind(over: &Json) -> (r: Option<&'static str>)
    ensures
        match r {
            Some(k) => over_literal_kind(*over) == Some(k@),
            None => over_literal_kind(*over) is None,
        },
{
    match over {
        Json::Null => Some("null"),
        Json::Bool(_) => Some("boolean"),
        Json::Num(_) => Some("number"),
        Json::Str(_) => Some("string"),
        _ => None,
    }
}

/// `temp_data.` and `slot`.
fn temp_slot_string(slot: &str) -> (r: String)
    ensures
        r@ == temp_slot(slot@),
{
    let mut s = owned("temp_data.");
    push_str(&mut s, slot);
    s
}

/// The message for a collect that overlaps a binding.
fn collect_overlap(collect: &str, binding: &str) -> (r: String)
    ensures
        r@ == collect_overlap_message(collect@, binding@),
{
    let mut m = owned("for_each collect (");
    push_str(&mut m, debug_str(collect).as_str());
    push_str(&mut m, ") and ");
    push_str(&mut m, debug_str(binding).as_str());
    push_str(
        &mut m,
        " overlap — the bindings live only in each call's copy, and a result written under one would be replayed into the message and left behind",
    );
    m
}

/// The message for an `into` that overlaps a slot written per call.
fn into_overlap(into: &str, other: &str) -> (r: String)
    ensures
        r@ == into_overlap_message(into@, other@),
{
    let mut m = owned("for_each into (");
    push_str(&mut m, debug_str(into).as_str());
    push_str(&mut m, ") and ");
    push_str(&mut m, debug_str(other).as_str());
    push_str(
        &mut m,
        " overlap — the results array would overwrite, or be overwritten by, a slot written per call",
    );
    m
}

/// The message for a context path that is not one.
fn not_context_path(field: &str, path: &str) -> (r: String)
    ensures
        r@ == "for_each "@ + field@
            + " must be a context path below data, metadata or temp_data, got "@ + debug_quoted(
            path@,
        ),
{
    let mut m = owned("for_each ");
    push_str(&mut m, field);
    push_str(&mut m, " must be a context path below data, metadata or temp_data, got ");
    push_str(&mut m, debug_str(path).as_str());
    m
}

/// The problem with how `collect` and `into` sit against the bindings.
fn check_paths(item: &str, collect: &str, into: &str) -> (r: Option<ForEachProblem>)
    ensures
        match r {
            Some(p) => paths_problem(item@, collect@, into@) == Some((p.field@, p.message@)),
            None => paths_problem(item@, collect@, into@) is None,
        },
{
    proof {
        reveal_strlit("collect");
        reveal_strlit("into");
        reveal_strlit("for_each ");
        reveal_strlit("for_each collect must be a context path below data, metadata or temp_data, got ");
        reveal_strlit("for_each into must be a context path below data, metadata or temp_data, got ");
        reveal_strlit(" must be a context path below data, metadata or temp_data, got ");
    }
    if !is_context_path(collect) {
        let m = not_context_path("collect", collect);
        assert(m@ =~= "for_each collect must be a context path below data, metadata or temp_data, got "@
            + debug_quoted(collect@));
        return Some(ForEachProblem { field: "collect", message: m });
    }
    if !is_context_path(into) {
        let m = not_context_path("into", into);
        assert(m@ =~= "for_each into must be a context path below data, metadata or temp_data, got "@
            + debug_quoted(into@));
        return Some(ForEachProblem { field: "into", message: m });
    }
    let binding = temp_slot_string(item);
    let mut index_slot = owned(item);
    push_str(&mut index_slot, "_index");
    let index = temp_slot_string(index_slot.as_str());
    if overlap(collect, binding.as_str()) {
        return Some(ForEachProblem { field: "collect", message: collect_overlap(collect, binding.as_str()) });
    }
    if overlap(collect, index.as_str()) {
        return Some(ForEachProblem { field: "collect", message: collect_overlap(collect, index.as_str()) });
    }
    if overlap(into, collect) {
        return Some(ForEachProblem { field: "into", message: into_overlap(into, collect) });
    }
    if overlap(into, binding.as_str()) {
        return Some(ForEachProblem { field: "into", message: into_overlap(into, binding.as_str()) });
    }
    if overlap(into, index.as_str()) {
        return Some(ForEachProblem { field: "into", message: into_overlap(into, index.as_str()) });
    }
    None
}

/// The context parts of an optional path.
fn context(path: &Option<String>) -> (r: Vec<String>)
    ensures
        parts_view(r@) == context_parts(opt_string(*path)),
{
    match path {
        Some(p) => {
            let s = p.as_str();
            proof {
                lemma_first_dot(s@);
            }
            let n = s.unicode_len();
            let d = find_dot(s);
            if d >= n {
                let r = no_parts();
                assert(parts_view(r@) =~= Seq::<Seq<char>>::empty());
                return r;
            }
            let root = s.substring_char(0, d);
            let rest = s.substring_char(d + 1, n);
            assert(root@ =~= s@.take(d as int));
            assert(rest@ =~= s@.skip(d + 1));
            compute_path_parts(root, rest)
        },
        None => {
            let r = no_parts();
            assert(parts_view(r@) =~= Seq::<Seq<char>>::empty());
            r
        },
    }
}

impl ForEach {
    /// `<as>_index`: the sibling slot holding the element's index.
    pub fn index_slot(&self) -> (r: String)
        ensures
            r@ == index_slot_of(self.item@),
    {
        let mut s = self.item.clone();
        push_str(&mut s, "_index");
        s
    }

    /// The one statement of the `for_each` rules, over the function named
    /// `function`: the first rule broken, or `None` when the fan-out loads.
    pub fn problem(&self, function: &str) -> (r: Option<ForEachProblem>)
        ensures
            match r {
                Some(p) => for_each_problem(
                    self.over,
                    self.item@,
                    self.max_concurrency as nat,
                    opt_string(self.collect),
                    opt_string(self.into),
                    function@,
                ) == Some((p.field@, p.message@)),
                None => for_each_problem(
                    self.over,
                    self.item@,
                    self.max_concurrency as nat,
                    opt_string(self.collect),
                    opt_string(self.into),
                    function@,
                ) is None,
            },
    {
        proof {
            reveal_strlit("");
            reveal_strlit("over");
            reveal_strlit("as");
            reveal_strlit("max_concurrency");
            reveal_strlit("collect");
            reveal_strlit("into");
        }
        match builtin_function_kind(function) {
            Some(BuiltinKind::SelfContained) => {
                let mut m = owned(
                    "for_each runs a handler-backed function once per element, and '",
                );
                push_str(&mut m, canonical_builtin_name(function));
                push_str(
                    &mut m,
                    "' is a built-in that runs inline — use JSONLogic's map, filter or reduce over the array instead",
                );
                return Some(ForEachProblem { field: "", message: m });
            },
            _ => {},
        }
        match literal_kind(&self.over) {
            Some(kind) => {
                let mut m = owned("for_each over is a ");
                push_str(&mut m, kind);
                push_str(&mut m, " literal, which can never evaluate to an array");
                return Some(ForEachProblem { field: "over", message: m });
            },
            None => {},
        }
        if !slot_path(self.item.as_str()) {
            let mut m = owned("for_each as must be a non-empty temp_data field path, got ");
            push_str(&mut m, debug_str(self.item.as_str()).as_str());
            return Some(ForEachProblem { field: "as", message: m });
        }
        if self.max_concurrency == 0 {
            return Some(
                ForEachProblem {
                    field: "max_concurrency",
                    message: owned("for_each max_concurrency must be at least 1"),
                },
            );
        }
        match (&self.collect, &self.into) {
            (None, None) => None,
            (Some(c), Some(i)) => check_paths(self.item.as_str(), c.as_str(), i.as_str()),
            (Some(_), None) => Some(
                ForEachProblem {
                    field: "collect",
                    message: owned(
                        "for_each collect and into go together: collect names what each call writes, into names the array the results land in",
                    ),
                },
            ),
            (None, Some(_)) => Some(
                ForEachProblem {
                    field: "into",
                    message: owned(
                        "for_each collect and into go together: collect names what each call writes, into names the array the results land in",
                    ),
                },
            ),
        }
    }

    /// Pre-split every path the driver writes or reads, once. Idempotent.
    pub fn precompute_paths(&mut self)
        ensures
            final(self).over == old(self).over,
            final(self).item == old(self).item,
            final(self).max_concurrency == old(self).max_concurrency,
            final(self).collect == old(self).collect,
            final(self).into == old(self).into,
            parts_view(final(self).item_parts@) == path_parts("temp_data"@, old(self).item@),
            parts_view(final(self).index_parts@) == path_parts(
                "temp_data"@,
                index_slot_of(old(self).item@),
            ),
            parts_view(final(self).collect_parts@) == context_parts(opt_string(old(self).collect)),
            parts_view(final(self).into_parts@) == context_parts(opt_string(old(self).into)),
    {
        self.item_parts = compute_path_parts("temp_data", self.item.as_str());
        let index = self.index_slot();
        self.index_parts = compute_path_parts("temp_data", index.as_str());
        self.collect_parts = context(&self.collect);
        self.into_parts = context(&self.into);
    }
}

/// Paths overlap symmetrically; a path overlaps every path below it; and a
/// path does not overlap a longer name that merely begins with it, such as
/// `temp_data.p` and `temp_data.p_out`.
pub proof fn lemma_slots_overlap_by_segment(a: Seq<char>, rest: Seq<char>, t: Seq<char>)
    ensures
        slots_overlap(a, a + seq!['.'] + rest) == slots_overlap(a + seq!['.'] + rest, a),
        slots_overlap(a, a + seq!['.'] + rest),
        t.len() > 0 && t[0] != '.' ==> !slots_overlap(a, a + t),
{
    let below = a + seq!['.'] + rest;
    assert(below.subrange(0, a.len() + 1 as int) =~= a + seq!['.']);
    if t.len() > 0 && t[0] != '.' {
        let longer = a + t;
        assert(longer != a) by {
            assert(longer.len() != a.len());
        }
        assert(!starts_with(longer, a + seq!['.'])) by {
            if starts_with(longer, a + seq!['.']) {
                assert(longer.subrange(0, a.len() + 1 as int)[a.len() as int] == longer[a.len() as int]);
                assert((a + seq!['.'])[a.len() as int] == '.');
            }
        }
    }
}

} // verus!

//! The rules between a `map` mapping's keys.
//!
//! A mapping has `logic` or `"unset": true`, never both; `on_null` needs
//! `logic`, since it says what a null result does; and a removal may not
//! name a context root.

use vstd::prelude::*;
use crate::error::DataflowError;
use crate::json::{
    items_view, lemma_items_view_index, lemma_items_view_len,
    Json, JsonView, entries_view, lemma_entries_view_index, lemma_entries_view_len,
};
use crate::logic::{Logic, LogicEngine, plain_var_path, scalar_view, var_at, var_path, var_result_fits};
use crate::message::{Change, Message};
use crate::paths::{get_nested_value, nested};
use crate::path_template::{ContextRoot, PathRoot, PathTemplate, parts_of};
use crate::paths::{index_of_segment, parse_index, split_dots, split_path, strip_hash, strip_hash_spec};
use crate::template::literal_text;
use crate::text::{owned, push_str, str_eq};

verus! {

/// What a mapping does when its `logic` evaluates to `null`.
#[derive(Debug, Clone, Copy, PartialEq, Eq, Structural)]
#[non_exhaustive]
pub enum OnNull {
    /// Leave the path as it was (the default), so a missing source never
    /// wipes its target.
    Skip,
    /// Remove the key at `path`, as `unset` would.
    Unset,
}

impl Default for OnNull {
    fn default() -> (r: OnNull)
        ensures
            r == OnNull::Skip,
    {
        OnNull::Skip
    }
}

/// A mapping as authored, before the rules between its keys are applied.
#[derive(Debug)]
pub struct AuthoredMapping {
    /// Where the mapping writes (or removes): a dotted path, or an
    /// expression computing one.
    pub path: Json,
    /// `Some` whenever the key is present, an explicit `null` included.
    pub logic: Option<Json>,
    /// Remove the key at `path` instead of writing to it.
    pub unset: bool,
    /// `Some` whenever the key is present, even spelling the default.
    pub on_null: Option<OnNull>,
}

/// Whether `parts` names a context root: one segment, `data`, `metadata` or
/// `temp_data` once a leading `#` is stripped.
pub open spec fn names_context_root(parts: Seq<Seq<char>>) -> bool {
    parts.len() == 1 && {
        let p = strip_hash_spec(parts[0]);
        p == "data"@ || p == "metadata"@ || p == "temp_data"@
    }
}

/// Whether `parts` names a context root: the one kind of path a mapping may
/// write (it merges) but never remove.
pub fn is_context_root(parts: &Vec<String>) -> (r: bool)
    ensures
        r == names_context_root(parts@.map_values(|p: String| p@)),
{
    if parts.len() != 1 {
        return false;
    }
    let p = strip_hash(parts[0].as_str());
    str_eq(p, "data") || str_eq(p, "metadata") || str_eq(p, "temp_data")
}

/// A rule between a mapping's keys that it breaks: the key it is reported
/// against, and why.
#[derive(Debug)]
pub struct MappingProblem {
    /// The mapping key the problem is reported against.
    pub field: &'static str,
    /// What is wrong.
    pub message: &'static str,
}

/// Why a mapping with neither `logic` nor `unset` is refused.
pub open spec fn no_logic_message() -> Seq<char> {
    "a mapping needs `logic`, or `\"unset\": true` to remove the path"@
}

/// Why a mapping with both `logic` and `unset` is refused.
pub open spec fn both_message() -> Seq<char> {
    "`unset` removes the path and takes no `logic` — to remove it only when the result is null, keep `logic` and use `\"on_null\": \"unset\"`"@
}

/// Why `on_null` without `logic` is refused.
pub open spec fn on_null_message() -> Seq<char> {
    "`on_null` says what a null `logic` result does, and this mapping has no `logic`"@
}

/// Why a removal of a context root is refused.
pub open spec fn root_removal_message() -> Seq<char> {
    "a context root (`data`, `metadata`, `temp_data`) cannot be removed — remove the keys under it instead"@
}

/// The first rule a mapping breaks, as (key, message).
pub open spec fn mapping_problem(
    path: Json,
    logic: Option<Json>,
    unset: bool,
    on_null: Option<OnNull>,
) -> Option<(Seq<char>, Seq<char>)> {
    if logic is None && !unset {
        Some(("logic"@, no_logic_message()))
    } else if logic is Some && unset {
        Some(("unset"@, both_message()))
    } else if logic is None && on_null is Some {
        Some(("on_null"@, on_null_message()))
    } else if (unset || on_null == Some(OnNull::Unset)) && (path matches Json::Str(p)
        && names_context_root(split_dots(p@))) {
        Some(("path"@, root_removal_message()))
    } else {
        None
    }
}

impl AuthoredMapping {
    /// The first rule this mapping breaks, if any.
    pub fn problem(&self) -> (r: Option<MappingProblem>)
        ensures
            match r {
                Some(p) => mapping_problem(self.path, self.logic, self.unset, self.on_null) == Some(
                    (p.field@, p.message@),
                ),
                None => mapping_problem(self.path, self.logic, self.unset, self.on_null) is None,
            },
    {
        match (&self.logic, self.unset) {
            (None, false) => {
                return Some(
                    MappingProblem {
                        field: "logic",
                        message: "a mapping needs `logic`, or `\"unset\": true` to remove the path",
                    },
                );
            },
            (Some(_), true) => {
                return Some(
                    MappingProblem {
                        field: "unset",
                        message: "`unset` removes the path and takes no `logic` — to remove it only when the result is null, keep `logic` and use `\"on_null\": \"unset\"`",
                    },
                );
            },
            _ => {},
        }
        if self.logic.is_none() && self.on_null.is_some() {
            return Some(
                MappingProblem {
                    field: "on_null",
                    message: "`on_null` says what a null `logic` result does, and this mapping has no `logic`",
                },
            );
        }
        let removes = self.unset || match self.on_null {
            Some(OnNull::Unset) => true,
            _ => false,
        };
        if removes {
            match &self.path {
                Json::Str(p) => {
                    let parts = split_path(p.as_str());
                    if is_context_root(&parts) {
                        return Some(
                            MappingProblem {
                                field: "path",
                                message: "a context root (`data`, `metadata`, `temp_data`) cannot be removed — remove the keys under it instead",
                            },
                        );
                    }
                },
                _ => {},
            }
        }
        None
    }
}

/// A mapping, once the rules between its keys hold.
#[derive(Debug)]
pub struct MapMapping {
    /// Where the mapping writes (or removes): a dotted path, or an
    /// expression computing one.
    pub path: PathTemplate<ContextRoot>,
    /// The expression whose result is written; `null` on a removal.
    pub logic: Json,
    /// Remove the key at `path` instead of writing to it.
    pub unset: bool,
    /// What a `null` result does.
    pub on_null: OnNull,
    /// The compiled expression, once compiled.
    pub compiled_logic: Option<Logic>,
}

/// Configuration for the map function: its mappings, run in order.
#[derive(Debug)]
pub struct MapConfig {
    /// The mappings, in the order they run.
    pub mappings: Vec<MapMapping>,
}

/// A mapping as plain values: path, logic, unset, on_null.
pub type MappingView = (JsonView, JsonView, bool, OnNull);

impl MapMapping {
    pub open spec fn view_mapping(self) -> MappingView {
        (self.path.template().raw().view_json(), self.logic.view_json(), self.unset, self.on_null)
    }
}

/// Why a mapping that is not an object is refused.
pub open spec fn not_an_object_message() -> Seq<char> {
    "a mapping must be an object"@
}

/// Why a mapping without `path` is refused.
pub open spec fn missing_path_message() -> Seq<char> {
    "missing field `path`"@
}

/// Why a non-boolean `unset` is refused.
pub open spec fn unset_type_message() -> Seq<char> {
    "invalid type for `unset`, expected a boolean"@
}

/// Why an `on_null` string that names no behaviour is refused.
pub open spec fn unknown_on_null_message(s: Seq<char>) -> Seq<char> {
    "unknown variant `"@ + s + "`, expected `skip` or `unset`"@
}

/// Why an `on_null` that is neither a string nor `null` is refused.
pub open spec fn on_null_type_message() -> Seq<char> {
    "invalid type for `on_null`, expected `skip` or `unset`"@
}

/// The `unset` key: `false` when absent.
pub open spec fn unset_field(mapping: Json) -> Result<bool, Seq<char>> {
    match mapping.field("unset"@) {
        None => Ok(false),
        Some(Json::Bool(b)) => Ok(b),
        Some(_) => Err(unset_type_message()),
    }
}

/// The `on_null` key: `None` when absent or `null`.
pub open spec fn on_null_field(mapping: Json) -> Result<Option<OnNull>, Seq<char>> {
    match mapping.field("on_null"@) {
        None => Ok(None),
        Some(Json::Null) => Ok(None),
        Some(Json::Str(s)) => if s@ == "skip"@ {
            Ok(Some(OnNull::Skip))
        } else if s@ == "unset"@ {
            Ok(Some(OnNull::Unset))
        } else {
            Err(unknown_on_null_message(s@))
        },
        Some(_) => Err(on_null_type_message()),
    }
}

/// The message a mapping that breaks a rule is refused with.
pub open spec fn problem_message(field: Seq<char>, message: Seq<char>) -> Seq<char> {
    "mapping `"@ + field + "`: "@ + message
}

/// What a mapping's JSON reads as: its keys, checked for type, then the
/// rules between them. Unknown keys are ignored.
pub open spec fn mapping_of(mapping: Json) -> Result<MappingView, Seq<char>> {
    if !(mapping is Object) {
        Err(not_an_object_message())
    } else {
        match unset_field(mapping) {
            Err(e) => Err(e),
            Ok(unset) => match on_null_field(mapping) {
                Err(e) => Err(e),
                Ok(on_null) => match mapping.field("path"@) {
                    None => Err(missing_path_message()),
                    Some(path) => match mapping_problem(
                        path,
                        mapping.field("logic"@),
                        unset,
                        on_null,
                    ) {
                        Some((field, message)) => Err(problem_message(field, message)),
                        None => Ok(
                            (
                                path.view_json(),
                                match mapping.field("logic"@) {
                                    Some(l) => l.view_json(),
                                    None => JsonView::Null,
                                },
                                unset,
                                match on_null {
                                    Some(o) => o,
                                    None => OnNull::Skip,
                                },
                            ),
                        ),
                    },
                },
            },
        }
    }
}

/// Whether the problem found on a copy of a mapping is the one found on the
/// mapping itself: the rules look at `path` and `logic` only through their
/// views.
proof fn lemma_problem_follows_views(
    path: Json,
    copy: Json,
    logic: Option<Json>,
    logic_copy: Option<Json>,
    unset: bool,
    on_null: Option<OnNull>,
)
    requires
        path.view_json() == copy.view_json(),
        logic is Some <==> logic_copy is Some,
    ensures
        mapping_problem(path, logic, unset, on_null) == mapping_problem(copy, logic_copy, unset, on_null),
{
    if path is Str {
        assert(copy is Str);
        assert(path->Str_0@ == copy->Str_0@);
    } else {
        assert(!(copy is Str));
    }
}

fn read_unset(mapping: &Json) -> (r: Result<bool, String>)
    ensures
        match r {
            Ok(b) => unset_field(*mapping) == Ok::<bool, Seq<char>>(b),
            Err(e) => unset_field(*mapping) == Err::<bool, Seq<char>>(e@),
        },
{
    match mapping.get("unset") {
        None => Ok(false),
        Some(Json::Bool(b)) => Ok(*b),
        Some(_) => Err(owned("invalid type for `unset`, expected a boolean")),
    }
}

fn read_on_null(mapping: &Json) -> (r: Result<Option<OnNull>, String>)
    ensures
        match r {
            Ok(o) => on_null_field(*mapping) == Ok::<Option<OnNull>, Seq<char>>(o),
            Err(e) => on_null_field(*mapping) == Err::<Option<OnNull>, Seq<char>>(e@),
        },
{
    match mapping.get("on_null") {
        None => Ok(None),
        Some(Json::Null) => Ok(None),
        Some(Json::Str(s)) => {
            if str_eq(s.as_str(), "skip") {
                Ok(Some(OnNull::Skip))
            } else if str_eq(s.as_str(), "unset") {
                Ok(Some(OnNull::Unset))
            } else {
                let mut m = owned("unknown variant `");
                push_str(&mut m, s.as_str());
                push_str(&mut m, "`, expected `skip` or `unset`");
                Err(m)
            }
        },
        Some(_) => Err(owned("invalid type for `on_null`, expected `skip` or `unset`")),
    }
}

impl AuthoredMapping {
    /// Read a mapping's keys from JSON, checking each for type; the rules
    /// between them are `problem`'s.
    pub fn from_json(mapping: &Json) -> (r: Result<AuthoredMapping, String>)
        ensures
            match r {
                Ok(a) => mapping is Object && unset_field(*mapping) == Ok::<bool, Seq<char>>(a.unset)
                    && on_null_field(*mapping) == Ok::<Option<OnNull>, Seq<char>>(a.on_null)
                    && mapping.field("path"@) is Some
                    && a.path.view_json() == mapping.field("path"@)->0.view_json()
                    && (a.logic is Some <==> mapping.field("logic"@) is Some)
                    && (a.logic is Some ==> a.logic->0.view_json() == mapping.field("logic"@)->0.view_json()),
                Err(e) => {
                    ||| !(mapping is Object) && e@ == not_an_object_message()
                    ||| mapping is Object && unset_field(*mapping) is Err && unset_field(*mapping) == Err::<bool, Seq<char>>(e@)
                    ||| mapping is Object && unset_field(*mapping) is Ok && on_null_field(*mapping) is Err
                        && on_null_field(*mapping) == Err::<Option<OnNull>, Seq<char>>(e@)
                    ||| mapping is Object && unset_field(*mapping) is Ok && on_null_field(*mapping) is Ok
                        && mapping.field("path"@) is None && e@ == missing_path_message()
                },
            },
    {
        if !mapping.is_object() {
            return Err(owned("a mapping must be an object"));
        }
        let unset = match read_unset(mapping) {
            Ok(b) => b,
            Err(e) => {
                return Err(e);
            },
        };
        let on_null = match read_on_null(mapping) {
            Ok(o) => o,
            Err(e) => {
                return Err(e);
            },
        };
        let path = match mapping.get("path") {
            Some(p) => p.copy(),
            None => {
                return Err(owned("missing field `path`"));
            },
        };
        let logic = match mapping.get("logic") {
            Some(l) => Some(l.copy()),
            None => None,
        };
        Ok(AuthoredMapping { path, logic, unset, on_null })
    }

    /// The mapping these keys describe: an absent `logic` is `null` and an
    /// absent `on_null` is `skip`.
    pub fn into_mapping(self) -> (r: MapMapping)
        ensures
            r.path.template().raw() == self.path,
            !r.path.template().compiled(),
            r.path.destination() is None,
            r.logic == match self.logic {
                Some(l) => l,
                None => Json::Null,
            },
            r.unset == self.unset,
            r.on_null == match self.on_null {
                Some(o) => o,
                None => OnNull::Skip,
            },
            r.compiled_logic is None,
    {
        MapMapping {
            path: PathTemplate::new(self.path),
            logic: match self.logic {
                Some(l) => l,
                None => Json::Null,
            },
            unset: self.unset,
            on_null: match self.on_null {
                Some(o) => o,
                None => OnNull::Skip,
            },
            compiled_logic: None,
        }
    }
}

impl MapMapping {
    /// Read a mapping from JSON: its keys, then the rules between them. A
    /// mapping breaking a rule is refused with `mapping `{key}`: {why}`.
    pub fn from_json(mapping: &Json) -> (r: Result<MapMapping, String>)
        ensures
            match r {
                Ok(m) => mapping_of(*mapping) == Ok::<MappingView, Seq<char>>(m.view_mapping()),
                Err(e) => mapping_of(*mapping) == Err::<MappingView, Seq<char>>(e@),
            },
    {
        let authored = match AuthoredMapping::from_json(mapping) {
            Ok(a) => a,
            Err(e) => {
                return Err(e);
            },
        };
        proof {
            lemma_problem_follows_views(
                mapping.field("path"@)->0,
                authored.path,
                mapping.field("logic"@),
                authored.logic,
                authored.unset,
                authored.on_null,
            );
        }
        match authored.problem() {
            Some(problem) => {
                let mut m = owned("mapping `");
                push_str(&mut m, problem.field);
                push_str(&mut m, "`: ");
                push_str(&mut m, problem.message);
                Err(m)
            },
            None => {
                let r = authored.into_mapping();
                Ok(r)
            },
        }
    }
}

/// What the first `n` entries of a `mappings` array read as: the first
/// refusal, else every mapping.
pub open spec fn mappings_of(items: Seq<Json>, n: int) -> Result<Seq<MappingView>, Seq<char>>
    decreases n,
{
    if n <= 0 {
        Ok(Seq::empty())
    } else {
        match mappings_of(items, n - 1) {
            Err(e) => Err(e),
            Ok(views) => if items[n - 1].field("path"@) is None {
                Err("Missing 'path' in mapping"@)
            } else {
                match mapping_of(items[n - 1]) {
                    Err(e) => Err(e),
                    Ok(v) => Ok(views.push(v)),
                }
            },
        }
    }
}

/// Once a prefix of the mappings is refused, every longer prefix is
/// refused with the same error.
proof fn lemma_refusal_persists(items: Seq<Json>, n: int, m: int)
    requires
        mappings_of(items, n) is Err,
        0 <= n <= m,
    ensures
        mappings_of(items, m) == mappings_of(items, n),
    decreases m - n,
{
    if m > n {
        lemma_refusal_persists(items, n, m - 1);
    }
}

/// What a map function's input reads as.
pub open spec fn map_config_of(input: Json) -> Result<Seq<MappingView>, Seq<char>> {
    match input.field("mappings"@) {
        None => Err("Missing 'mappings' array in input"@),
        Some(Json::Array(items)) => mappings_of(items@, items@.len() as int),
        Some(_) => Err("'mappings' must be an array"@),
    }
}

/// The views of a list of mappings.
pub open spec fn mappings_view(ms: Seq<MapMapping>) -> Seq<MappingView> {
    ms.map_values(|m: MapMapping| m.view_mapping())
}

/// Whether `r` is what reading a `MapConfig` input from `input` gives.
pub open spec fn map_input_read(input: Json, r: Result<MapConfig, DataflowError>) -> bool {
    match r {
        Ok(c) => map_config_of(input) == Ok::<Seq<MappingView>, Seq<char>>(
            mappings_view(c.mappings@),
        ),
        Err(e) => map_config_of(input) is Err && (e matches DataflowError::Validation(m)
            && map_config_of(input) == Err::<Seq<MappingView>, Seq<char>>(m@)),
    }
}

impl MapConfig {
    /// Read a map function's input: a `mappings` array, each entry with a
    /// `path`, and each read as `MapMapping::from_json` reads it. The first
    /// refusal is the error.
    pub fn from_json(input: &Json) -> (r: Result<MapConfig, DataflowError>)
        ensures
            map_input_read(*input, r),
    {
        let mappings = match input.get("mappings") {
            Some(m) => m,
            None => {
                return Err(DataflowError::Validation(owned("Missing 'mappings' array in input")));
            },
        };
        let items = match mappings {
            Json::Array(items) => items,
            _ => {
                return Err(DataflowError::Validation(owned("'mappings' must be an array")));
            },
        };
        let mut parsed: Vec<MapMapping> = Vec::new();
        let mut i: usize = 0;
        assert(mappings_view(parsed@) =~= Seq::<MappingView>::empty());
        while i < items.len()
            invariant
                i <= items@.len(),
                input.field("mappings"@) == Some(Json::Array(*items)),
                mappings_of(items@, i as int) == Ok::<Seq<MappingView>, Seq<char>>(
                    mappings_view(parsed@),
                ),
            decreases items@.len() - i,
        {
            let mapping = &items[i];
            if mapping.get("path").is_none() {
                proof {
                    lemma_refusal_persists(items@, i + 1, items@.len() as int);
                }
                return Err(DataflowError::Validation(owned("Missing 'path' in mapping")));
            }
            match MapMapping::from_json(mapping) {
                Ok(m) => {
                    let ghost before = parsed@;
                    let ghost v = m.view_mapping();
                    parsed.push(m);
                    assert(mappings_view(parsed@) =~= mappings_view(before).push(v));
                },
                Err(e) => {
                    proof {
                        lemma_refusal_persists(items@, i + 1, items@.len() as int);
                    }
                    return Err(DataflowError::Validation(e));
                },
            }
            i = i + 1;
        }
        Ok(MapConfig { mappings: parsed })
    }
}

/// Index of the first entry under `key`, or `entries.len()` when none.
pub open spec fn view_index(entries: Seq<(Seq<char>, JsonView)>, key: Seq<char>) -> int
    decreases entries.len(),
{
    if entries.len() == 0 {
        0
    } else if entries[0].0 == key {
        0
    } else {
        1 + view_index(entries.drop_first(), key)
    }
}

/// The first value under `key`, if any.
pub open spec fn view_get(entries: Seq<(Seq<char>, JsonView)>, key: Seq<char>) -> Option<JsonView> {
    let i = view_index(entries, key);
    if 0 <= i < entries.len() {
        Some(entries[i].1)
    } else {
        None
    }
}

/// `entries` with `key` set to `value`: the first entry under `key` takes
/// the value, or a new entry is appended.
pub open spec fn set_entry(
    entries: Seq<(Seq<char>, JsonView)>,
    key: Seq<char>,
    value: JsonView,
) -> Seq<(Seq<char>, JsonView)> {
    let i = view_index(entries, key);
    if i < entries.len() {
        entries.update(i, (key, value))
    } else {
        entries.push((key, value))
    }
}

/// `existing` with each entry of `new` set in turn.
pub open spec fn merge_entries(
    existing: Seq<(Seq<char>, JsonView)>,
    new: Seq<(Seq<char>, JsonView)>,
) -> Seq<(Seq<char>, JsonView)>
    decreases new.len(),
{
    if new.len() == 0 {
        existing
    } else {
        merge_entries(set_entry(existing, new[0].0, new[0].1), new.drop_first())
    }
}

/// The context after a mapping writes `value` to the root field `path`:
/// two objects merge key by key, the new value winning; anything else
/// replaces the field. A context that is not an object becomes one holding
/// only the field.
pub open spec fn merge_root(context: JsonView, path: Seq<char>, value: JsonView) -> JsonView {
    match context {
        JsonView::Object(pairs) => {
            let i = view_index(pairs, path);
            if i < pairs.len() {
                match (pairs[i].1, value) {
                    (JsonView::Object(existing), JsonView::Object(new)) => JsonView::Object(
                        pairs.update(i, (path, JsonView::Object(merge_entries(existing, new)))),
                    ),
                    _ => JsonView::Object(pairs.update(i, (path, value))),
                }
            } else {
                JsonView::Object(pairs.push((path, value)))
            }
        },
        _ => JsonView::Object(seq![(path, value)]),
    }
}

proof fn lemma_view_index(entries: Seq<(Seq<char>, JsonView)>, key: Seq<char>, j: int)
    requires
        0 <= j <= entries.len(),
        j < entries.len() ==> entries[j].0 == key,
        forall|k: int| 0 <= k < j ==> entries[k].0 != key,
    ensures
        view_index(entries, key) == j,
    decreases entries.len(),
{
    if entries.len() > 0 && j > 0 {
        lemma_view_index(entries.drop_first(), key, j - 1);
    }
}

proof fn lemma_view_index_bounds(entries: Seq<(Seq<char>, JsonView)>, key: Seq<char>)
    ensures
        0 <= view_index(entries, key) <= entries.len(),
        view_index(entries, key) < entries.len() ==> entries[view_index(entries, key)].0 == key,
        forall|k: int| 0 <= k < view_index(entries, key) ==> entries[k].0 != key,
    decreases entries.len(),
{
    if entries.len() > 0 && entries[0].0 != key {
        lemma_view_index_bounds(entries.drop_first(), key);
        assert forall|k: int| 0 <= k < view_index(entries, key) implies entries[k].0 != key by {
            if k > 0 {
                assert(entries[k] == entries.drop_first()[k - 1]);
            }
        }
    }
}

/// Where `key` is first found depends on the keys alone.
proof fn lemma_view_index_same_keys(
    a: Seq<(Seq<char>, JsonView)>,
    b: Seq<(Seq<char>, JsonView)>,
    key: Seq<char>,
)
    requires
        a.len() == b.len(),
        forall|k: int| 0 <= k < a.len() ==> a[k].0 == b[k].0,
    ensures
        view_index(a, key) == view_index(b, key),
{
    lemma_view_index_bounds(a, key);
    lemma_view_index(b, key, view_index(a, key));
}

/// Where `key` is first found once an entry is appended.
proof fn lemma_view_index_push(
    entries: Seq<(Seq<char>, JsonView)>,
    e: (Seq<char>, JsonView),
    key: Seq<char>,
)
    ensures
        view_index(entries.push(e), key) == if view_index(entries, key) < entries.len() {
            view_index(entries, key)
        } else if e.0 == key {
            entries.len() as int
        } else {
            entries.len() + 1int
        },
{
    lemma_view_index_bounds(entries, key);
    let t = entries.push(e);
    if view_index(entries, key) < entries.len() {
        lemma_view_index(t, key, view_index(entries, key));
    } else if e.0 == key {
        lemma_view_index(t, key, entries.len() as int);
    } else {
        lemma_view_index(t, key, entries.len() + 1int);
    }
}

/// What setting one entry does to every lookup.
proof fn lemma_set_entry_get(
    entries: Seq<(Seq<char>, JsonView)>,
    k0: Seq<char>,
    v0: JsonView,
    key: Seq<char>,
)
    ensures
        view_get(set_entry(entries, k0, v0), key) == if key == k0 {
            Some(v0)
        } else {
            view_get(entries, key)
        },
{
    lemma_view_index_bounds(entries, k0);
    lemma_view_index_bounds(entries, key);
    let i = view_index(entries, k0);
    let t = set_entry(entries, k0, v0);
    if i < entries.len() {
        lemma_view_index_same_keys(entries, t, key);
        if key != k0 {
            assert(view_index(entries, key) != i);
        }
    } else {
        lemma_view_index_push(entries, (k0, v0), key);
    }
}

/// A merge reads as: each key of `new` takes its value there, and every
/// other key keeps its value in `existing`. (The keys of `new` are distinct,
/// as a JSON object's are.)
pub proof fn lemma_merge_entries_get(
    existing: Seq<(Seq<char>, JsonView)>,
    new: Seq<(Seq<char>, JsonView)>,
    key: Seq<char>,
)
    requires
        forall|a: int, b: int| 0 <= a < b < new.len() ==> new[a].0 != new[b].0,
    ensures
        view_get(merge_entries(existing, new), key) == if view_get(new, key) is Some {
            view_get(new, key)
        } else {
            view_get(existing, key)
        },
    decreases new.len(),
{
    if new.len() > 0 {
        let rest = new.drop_first();
        assert forall|a: int, b: int| 0 <= a < b < rest.len() implies rest[a].0 != rest[b].0 by {
            assert(rest[a] == new[a + 1] && rest[b] == new[b + 1]);
        }
        lemma_merge_entries_get(set_entry(existing, new[0].0, new[0].1), rest, key);
        lemma_set_entry_get(existing, new[0].0, new[0].1, key);
        lemma_view_index_bounds(new, key);
        lemma_view_index_bounds(rest, key);
        if key == new[0].0 {
            assert(view_index(new, key) == 0);
            assert(view_get(rest, key) is None) by {
                if view_index(rest, key) < rest.len() {
                    assert(rest[view_index(rest, key)] == new[view_index(rest, key) + 1]);
                }
            }
        } else {
            assert(view_index(new, key) == 1 + view_index(rest, key));
        }
    }
}

/// Index of the first entry under `key`, or the length when none.
fn find_key(entries: &Vec<(String, Json)>, key: &str) -> (j: usize)
    ensures
        j <= entries@.len(),
        j == view_index(entries_view(entries@), key@),
{
    proof {
        lemma_entries_view_len(entries@);
    }
    let mut j: usize = 0;
    while j < entries.len()
        invariant
            j <= entries@.len(),
            entries_view(entries@).len() == entries@.len(),
            forall|k: int| 0 <= k < j ==> entries_view(entries@)[k].0 != key@,
        decreases entries@.len() - j,
    {
        proof {
            lemma_entries_view_index(entries@, j as int);
        }
        if str_eq(entries[j].0.as_str(), key) {
            proof {
                lemma_view_index(entries_view(entries@), key@, j as int);
            }
            return j;
        }
        j = j + 1;
    }
    proof {
        lemma_view_index(entries_view(entries@), key@, j as int);
    }
    j
}

/// The view of a list of entries after one entry is replaced.
proof fn lemma_entries_view_update(entries: Seq<(String, Json)>, i: int, e: (String, Json))
    requires
        0 <= i < entries.len(),
    ensures
        entries_view(entries.update(i, e)) == entries_view(entries).update(i, (e.0@, e.1.view_json())),
{
    let t = entries.update(i, e);
    lemma_entries_view_len(entries);
    lemma_entries_view_len(t);
    assert forall|k: int| 0 <= k < t.len() implies entries_view(t)[k] == entries_view(entries).update(
        i,
        (e.0@, e.1.view_json()),
    )[k] by {
        lemma_entries_view_index(t, k);
        lemma_entries_view_index(entries, k);
    }
    assert(entries_view(t) =~= entries_view(entries).update(i, (e.0@, e.1.view_json())));
}

/// The view of a list of entries after one entry is appended.
proof fn lemma_entries_view_push(entries: Seq<(String, Json)>, e: (String, Json))
    ensures
        entries_view(entries.push(e)) == entries_view(entries).push((e.0@, e.1.view_json())),
{
    let t = entries.push(e);
    lemma_entries_view_len(entries);
    lemma_entries_view_len(t);
    assert forall|k: int| 0 <= k < t.len() implies entries_view(t)[k] == entries_view(entries).push(
        (e.0@, e.1.view_json()),
    )[k] by {
        lemma_entries_view_index(t, k);
        if k < entries.len() {
            lemma_entries_view_index(entries, k);
        }
    }
    assert(entries_view(t) =~= entries_view(entries).push((e.0@, e.1.view_json())));
}

/// Set each entry of `new` into `existing` in turn, the new value winning.
fn merge_into(existing: &mut Vec<(String, Json)>, new: Vec<(String, Json)>)
    ensures
        entries_view(final(existing)@) == merge_entries(entries_view(old(existing)@), entries_view(new@)),
{
    let ghost target = merge_entries(entries_view(existing@), entries_view(new@));
    let mut rest = new;
    while rest.len() > 0
        invariant
            merge_entries(entries_view(existing@), entries_view(rest@)) == target,
        decreases rest@.len(),
    {
        let ghost before = existing@;
        let ghost rest_before = rest@;
        proof {
            lemma_entries_view_index(rest_before, 0);
            lemma_entries_view_len(rest_before);
            assert(entries_view(rest_before).drop_first() =~= entries_view(rest_before.drop_first())) by {
                lemma_entries_view_len(rest_before.drop_first());
                assert forall|k: int| 0 <= k < rest_before.len() - 1 implies entries_view(
                    rest_before,
                ).drop_first()[k] == entries_view(rest_before.drop_first())[k] by {
                    lemma_entries_view_index(rest_before, k + 1);
                    lemma_entries_view_index(rest_before.drop_first(), k);
                }
            }
        }
        let (k, v) = rest.remove(0);
        assert(rest@ =~= rest_before.drop_first());
        let j = find_key(existing, k.as_str());
        let ghost kv = k@;
        let ghost vv = v.view_json();
        proof {
            lemma_entries_view_len(before);
            lemma_view_index_bounds(entries_view(before), kv);
        }
        if j < existing.len() {
            let (ek, _old) = existing.remove(j);
            existing.insert(j, (ek, v));
            proof {
                lemma_entries_view_index(before, j as int);
                assert(existing@ =~= before.update(j as int, (ek, existing@[j as int].1)));
                lemma_entries_view_update(before, j as int, existing@[j as int]);
            }
        } else {
            existing.push((k, v));
            proof {
                lemma_entries_view_push(before, existing@[before.len() as int]);
                assert(existing@ =~= before.push(existing@[before.len() as int]));
            }
        }
        assert(entries_view(existing@) == set_entry(entries_view(before), kv, vv));
    }
    assert(entries_view(rest@) =~= Seq::<(Seq<char>, JsonView)>::empty()) by {
        lemma_entries_view_len(rest@);
    }
}

/// A root write changes only its own field: every other field of the
/// context keeps its value, and the field itself holds the value written,
/// or, when both it and the value are objects, their merge.
pub proof fn lemma_merge_root_fields(
    pairs: Seq<(Seq<char>, JsonView)>,
    path: Seq<char>,
    value: JsonView,
    other: Seq<char>,
)
    requires
        other != path,
    ensures
        merge_root(JsonView::Object(pairs), path, value) matches JsonView::Object(after) && {
            &&& view_get(after, other) == view_get(pairs, other)
            &&& view_get(after, path) == Some(
                match (view_get(pairs, path), value) {
                    (Some(JsonView::Object(existing)), JsonView::Object(new)) => JsonView::Object(
                        merge_entries(existing, new),
                    ),
                    _ => value,
                },
            )
        },
{
    lemma_view_index_bounds(pairs, path);
    let i = view_index(pairs, path);
    let w = match (view_get(pairs, path), value) {
        (Some(JsonView::Object(existing)), JsonView::Object(new)) => JsonView::Object(
            merge_entries(existing, new),
        ),
        _ => value,
    };
    assert(merge_root(JsonView::Object(pairs), path, value) == JsonView::Object(
        set_entry(pairs, path, w),
    ));
    lemma_set_entry_get(pairs, path, w, other);
    lemma_set_entry_get(pairs, path, w, path);
}

/// Write `value` to the root field `path` of the context: two objects merge
/// key by key, the new value winning; anything else replaces the field. A
/// context that is not an object is replaced by one holding only the field.
pub fn merge_root_field(context: &mut Json, path: &str, value: Json)
    ensures
        final(context).view_json() == merge_root(old(context).view_json(), path@, value.view_json()),
{
    let ghost value_view = value.view_json();
    let mut ctx = Json::Null;
    std::mem::swap(&mut ctx, context);
    match ctx {
        Json::Object(mut pairs) => {
            let ghost before = pairs@;
            let i = find_key(&pairs, path);
            proof {
                lemma_entries_view_len(before);
                lemma_view_index_bounds(entries_view(before), path@);
            }
            if i < pairs.len() {
                let (key, slot) = pairs.remove(i);
                proof {
                    lemma_entries_view_index(before, i as int);
                }
                let merged = match (slot, value) {
                    (Json::Object(mut existing), Json::Object(new)) => {
                        merge_into(&mut existing, new);
                        Json::Object(existing)
                    },
                    (_, other) => other,
                };
                pairs.insert(i, (key, merged));
                proof {
                    assert(pairs@ =~= before.update(i as int, pairs@[i as int]));
                    lemma_entries_view_update(before, i as int, pairs@[i as int]);
                }
            } else {
                pairs.push((owned(path), value));
                proof {
                    lemma_entries_view_push(before, pairs@[before.len() as int]);
                    assert(pairs@ =~= before.push(pairs@[before.len() as int]));
                }
            }
            *context = Json::Object(pairs);
        },
        _ => {
            *context = wrap_root(path, value);
        },
    }
}

/// A context holding only `value` under `path`.
pub fn wrap_root(path: &str, value: Json) -> (r: Json)
    ensures
        r.view_json() == JsonView::Object(seq![(path@, value.view_json())]),
{
    let mut pairs: Vec<(String, Json)> = Vec::new();
    pairs.push((owned(path), value));
    proof {
        lemma_entries_view_push(Seq::empty(), pairs@[0]);
        assert(pairs@ =~= Seq::<(String, Json)>::empty().push(pairs@[0]));
        assert(entries_view(Seq::<(String, Json)>::empty()) =~= Seq::<(Seq<char>, JsonView)>::empty());
    }
    Json::Object(pairs)
}

/// How a mapping's expression evaluated against the message.
#[derive(Debug)]
pub enum Evaluation {
    /// Evaluation failed.
    Failed,
    /// The result; `null` included.
    Value(Json),
}

/// Where a mapping's path resolved to for the message.
#[derive(Debug)]
pub enum Destination {
    /// The path expression failed to resolve.
    Failed,
    /// The dotted path and its parts.
    Path(String, Vec<String>),
}

/// What one mapping does to the message context.
#[derive(Debug)]
pub enum MappingEffect {
    /// Merge the value into the root field of that name.
    MergeRoot(String, Json),
    /// Write the value at the path's parts.
    Write(Vec<String>, Json),
    /// Remove the key at the path's parts.
    Remove(Vec<String>),
    /// Leave the context as it is.
    Skip,
    /// The mapping fails; the task's outcome becomes a failure, and the
    /// mappings after it still run.
    Fail,
}

/// What a mapping does, as plain values.
pub enum EffectView {
    MergeRoot(Seq<char>, JsonView),
    Write(Seq<Seq<char>>, JsonView),
    Remove(Seq<Seq<char>>),
    Skip,
    Fail,
}

impl MappingEffect {
    pub open spec fn view_effect(self) -> EffectView {
        match self {
            MappingEffect::MergeRoot(root, v) => EffectView::MergeRoot(root@, v.view_json()),
            MappingEffect::Write(parts, v) => EffectView::Write(
                parts@.map_values(|p: String| p@),
                v.view_json(),
            ),
            MappingEffect::Remove(parts) => EffectView::Remove(parts@.map_values(|p: String| p@)),
            MappingEffect::Skip => EffectView::Skip,
            MappingEffect::Fail => EffectView::Fail,
        }
    }
}

/// Whether a dotted path names a root field exactly: `data`, `metadata` or
/// `temp_data`.
pub open spec fn is_root_path(path: Seq<char>) -> bool {
    path == "data"@ || path == "metadata"@ || path == "temp_data"@
}

/// A removal at the destination: refused for a context root.
pub open spec fn removal(destination: Option<(Seq<char>, Seq<Seq<char>>)>) -> EffectView {
    match destination {
        None => EffectView::Fail,
        Some((_, parts)) => if names_context_root(parts) {
            EffectView::Fail
        } else {
            EffectView::Remove(parts)
        },
    }
}

/// What a mapping does given how its expression evaluated and where its path
/// resolved. A removal (`unset`, or a `null` result under `on_null: unset`)
/// needs no value; a `null` result under `on_null: skip` needs no
/// destination; a write of a single root-named part merges into that root.
pub open spec fn effect_of(
    unset: bool,
    on_null: OnNull,
    evaluation: Option<JsonView>,
    destination: Option<(Seq<char>, Seq<Seq<char>>)>,
) -> EffectView {
    if unset {
        removal(destination)
    } else {
        match evaluation {
            None => EffectView::Fail,
            Some(JsonView::Null) => match on_null {
                OnNull::Skip => EffectView::Skip,
                OnNull::Unset => removal(destination),
            },
            Some(v) => match destination {
                None => EffectView::Fail,
                Some((dotted, parts)) => if parts.len() == 1 && is_root_path(dotted) {
                    EffectView::MergeRoot(dotted, v)
                } else {
                    EffectView::Write(parts, v)
                },
            },
        }
    }
}

/// The view of an evaluation.
pub open spec fn evaluation_view(e: Evaluation) -> Option<JsonView> {
    match e {
        Evaluation::Failed => None,
        Evaluation::Value(v) => Some(v.view_json()),
    }
}

/// The view of a destination.
pub open spec fn destination_view(d: Destination) -> Option<(Seq<char>, Seq<Seq<char>>)> {
    match d {
        Destination::Failed => None,
        Destination::Path(dotted, parts) => Some((dotted@, parts@.map_values(|p: String| p@))),
    }
}

fn remove_effect(destination: Destination) -> (r: MappingEffect)
    ensures
        r.view_effect() == removal(destination_view(destination)),
{
    match destination {
        Destination::Failed => MappingEffect::Fail,
        Destination::Path(_, parts) => {
            if is_context_root(&parts) {
                MappingEffect::Fail
            } else {
                MappingEffect::Remove(parts)
            }
        },
    }
}

impl MapMapping {
    /// Where this mapping's path resolves for `context`: the precomputed
    /// destination of a constant path; for one never compiled, its literal
    /// text (anything else fails); otherwise the rooting of what the
    /// expression resolves to.
    pub fn destination(&self, engine: &LogicEngine, context: &Json) -> (r: Destination)
        ensures
            destination_fits(*self, destination_view(r)),
    {
        match self.path.resolve(engine, context) {
            Ok((dotted, parts)) => Destination::Path(dotted, parts),
            Err(_) => Destination::Failed,
        }
    }

    /// What this mapping does to the context, given how its expression
    /// evaluated and where its path resolved for the message.
    pub fn effect(&self, evaluation: Evaluation, destination: Destination) -> (r: MappingEffect)
        ensures
            r.view_effect() == effect_of(
                self.unset,
                self.on_null,
                evaluation_view(evaluation),
                destination_view(destination),
            ),
    {
        if self.unset {
            return remove_effect(destination);
        }
        let value = match evaluation {
            Evaluation::Failed => {
                return MappingEffect::Fail;
            },
            Evaluation::Value(v) => v,
        };
        if value.is_null() {
            return match self.on_null {
                OnNull::Skip => MappingEffect::Skip,
                OnNull::Unset => remove_effect(destination),
            };
        }
        match destination {
            Destination::Failed => MappingEffect::Fail,
            Destination::Path(dotted, parts) => {
                proof {
                    reveal_strlit("data");
                    reveal_strlit("metadata");
                    reveal_strlit("temp_data");
                }
                if parts.len() == 1 && (str_eq(dotted.as_str(), "data") || str_eq(
                    dotted.as_str(),
                    "metadata",
                ) || str_eq(dotted.as_str(), "temp_data")) {
                    MappingEffect::MergeRoot(dotted, value)
                } else {
                    MappingEffect::Write(parts, value)
                }
            },
        }
    }
}

/// Whether a map task's run failed: it did when any mapping failed. A failed
/// run reports status 500; the other mappings have still run.
pub fn run_failed(effects: &Vec<MappingEffect>) -> (r: bool)
    ensures
        r == exists|i: int| 0 <= i < effects@.len() && effects@[i] is Fail,
{
    let mut i: usize = 0;
    while i < effects.len()
        invariant
            i <= effects@.len(),
            forall|j: int| 0 <= j < i ==> !(effects@[j] is Fail),
        decreases effects@.len() - i,
    {
        if let MappingEffect::Fail = effects[i] {
            return true;
        }
        i = i + 1;
    }
    false
}

/// The child a path segment names in a value: an object's entry under the
/// segment (less one leading `#`), or an array's item at the index the
/// segment spells.
pub open spec fn view_child(v: JsonView, seg: Seq<char>) -> Option<JsonView> {
    match v {
        JsonView::Object(es) => view_get(es, strip_hash_spec(seg)),
        JsonView::Array(items) => match index_of_segment(seg) {
            Some(i) => if i < items.len() {
                Some(items[i as int])
            } else {
                None
            },
            None => None,
        },
        _ => None,
    }
}

/// The value reached by following `parts` from `v`.
pub open spec fn view_follow(v: JsonView, parts: Seq<Seq<char>>) -> Option<JsonView>
    decreases parts.len(),
{
    if parts.len() == 0 {
        Some(v)
    } else {
        match view_child(v, parts[0]) {
            Some(c) => view_follow(c, parts.drop_first()),
            None => None,
        }
    }
}

/// `v` with `x` written at `parts`: an array item the segment indexes is
/// written into; an object's entry under the segment (less one leading `#`)
/// is written into, or added; anything else on the way is replaced by an
/// object holding only that entry.
pub open spec fn written(v: JsonView, parts: Seq<Seq<char>>, x: JsonView) -> JsonView
    decreases parts.len(),
{
    if parts.len() == 0 {
        x
    } else {
        let seg = parts[0];
        let key = strip_hash_spec(seg);
        let rest = parts.drop_first();
        match v {
            JsonView::Array(items) => match index_of_segment(seg) {
                Some(i) => if i < items.len() {
                    JsonView::Array(items.update(i as int, written(items[i as int], rest, x)))
                } else {
                    JsonView::Object(seq![(key, written(JsonView::Null, rest, x))])
                },
                None => JsonView::Object(seq![(key, written(JsonView::Null, rest, x))]),
            },
            JsonView::Object(es) => JsonView::Object(
                set_entry(
                    es,
                    key,
                    written(
                        match view_get(es, key) {
                            Some(c) => c,
                            None => JsonView::Null,
                        },
                        rest,
                        x,
                    ),
                ),
            ),
            _ => JsonView::Object(seq![(key, written(JsonView::Null, rest, x))]),
        }
    }
}

/// A write into an object leaves every entry other than the one its path
/// goes through as it was.
pub proof fn lemma_write_keeps_siblings(
    es: Seq<(Seq<char>, JsonView)>,
    parts: Seq<Seq<char>>,
    x: JsonView,
    other: Seq<char>,
)
    requires
        parts.len() > 0,
        other != strip_hash_spec(parts[0]),
    ensures
        written(JsonView::Object(es), parts, x) matches JsonView::Object(after) && view_get(
            after,
            other,
        ) == view_get(es, other),
{
    let key = strip_hash_spec(parts[0]);
    let inner = written(
        match view_get(es, key) {
            Some(c) => c,
            None => JsonView::Null,
        },
        parts.drop_first(),
        x,
    );
    assert(written(JsonView::Object(es), parts, x) == JsonView::Object(set_entry(es, key, inner)));
    lemma_set_entry_get(es, key, inner, other);
}

/// What a write leaves at its path is what was written.
pub proof fn lemma_read_after_write(v: JsonView, parts: Seq<Seq<char>>, x: JsonView)
    ensures
        view_follow(written(v, parts, x), parts) == Some(x),
    decreases parts.len(),
{
    if parts.len() > 0 {
        let seg = parts[0];
        let key = strip_hash_spec(seg);
        let rest = parts.drop_first();
        let w = written(v, parts, x);
        match v {
            JsonView::Array(items) => {
                match index_of_segment(seg) {
                    Some(i) => {
                        if i < items.len() {
                            lemma_read_after_write(items[i as int], rest, x);
                        } else {
                            lemma_read_after_write(JsonView::Null, rest, x);
                            lemma_view_index(seq![(key, written(JsonView::Null, rest, x))], key, 0);
                        }
                    },
                    None => {
                        lemma_read_after_write(JsonView::Null, rest, x);
                        lemma_view_index(seq![(key, written(JsonView::Null, rest, x))], key, 0);
                    },
                }
            },
            JsonView::Object(es) => {
                let c = match view_get(es, key) {
                    Some(c) => c,
                    None => JsonView::Null,
                };
                lemma_read_after_write(c, rest, x);
                lemma_set_entry_get(es, key, written(c, rest, x), key);
            },
            _ => {
                lemma_read_after_write(JsonView::Null, rest, x);
                lemma_view_index(seq![(key, written(JsonView::Null, rest, x))], key, 0);
            },
        }
    }
}

/// The view of a list of items after one item is replaced.
proof fn lemma_items_view_update(items: Seq<Json>, i: int, e: Json)
    requires
        0 <= i < items.len(),
    ensures
        items_view(items.update(i, e)) == items_view(items).update(i, e.view_json()),
{
    let t = items.update(i, e);
    lemma_items_view_len(items);
    lemma_items_view_len(t);
    assert forall|k: int| 0 <= k < t.len() implies items_view(t)[k] == items_view(items).update(
        i,
        e.view_json(),
    )[k] by {
        lemma_items_view_index(t, k);
        lemma_items_view_index(items, k);
    }
    assert(items_view(t) =~= items_view(items).update(i, e.view_json()));
}

/// Write `x` into `value` at `parts[k..]`.
fn write_from(value: &mut Json, parts: &Vec<String>, k: usize, x: Json)
    requires
        k <= parts@.len(),
    ensures
        final(value).view_json() == written(old(value).view_json(), parts_of(parts@).skip(k as int), x.view_json()),
    decreases parts@.len() - k,
{
    let ghost ps = parts_of(parts@).skip(k as int);
    if k == parts.len() {
        assert(ps.len() == 0);
        *value = x;
        return;
    }
    assert(ps[0] == parts@[k as int]@);
    assert(ps.drop_first() =~= parts_of(parts@).skip(k + 1));
    let seg = parts[k].as_str();
    let key = strip_hash(seg);
    let mut cur = Json::Null;
    std::mem::swap(&mut cur, value);
    let ghost old_view = cur.view_json();
    match cur {
        Json::Array(mut items) => {
            let ghost before = items@;
            let idx = parse_index(seg);
            let n_items = items.len();
            proof {
                lemma_items_view_len(before);
            }
            let fits = match idx {
                Some(i) => i < n_items,
                None => false,
            };
            if fits {
                let i = idx.unwrap();
                let mut child = items.remove(i);
                proof {
                    lemma_items_view_index(before, i as int);
                    assert(index_of_segment(ps[0]) == Some(i as nat));
                }
                write_from(&mut child, parts, k + 1, x);
                items.insert(i, child);
                proof {
                    assert(items@ =~= before.update(i as int, child));
                    lemma_items_view_update(before, i as int, child);
                }
                *value = Json::Array(items);
            } else {
                proof {
                    lemma_items_view_len(before);
                }
                let mut child = Json::Null;
                write_from(&mut child, parts, k + 1, x);
                let mut pairs: Vec<(String, Json)> = Vec::new();
                pairs.push((owned(key), child));
                proof {
                    lemma_entries_view_push(Seq::empty(), pairs@[0]);
                    assert(pairs@ =~= Seq::<(String, Json)>::empty().push(pairs@[0]));
                    assert(entries_view(Seq::<(String, Json)>::empty()) =~= Seq::<(Seq<char>, JsonView)>::empty());
                }
                *value = Json::Object(pairs);
            }
        },
        Json::Object(mut pairs) => {
            let ghost before = pairs@;
            let j = find_key(&pairs, key);
            proof {
                lemma_entries_view_len(before);
                lemma_view_index_bounds(entries_view(before), key@);
            }
            if j < pairs.len() {
                let (kk, mut child) = pairs.remove(j);
                proof {
                    lemma_entries_view_index(before, j as int);
                }
                write_from(&mut child, parts, k + 1, x);
                pairs.insert(j, (kk, child));
                proof {
                    assert(pairs@ =~= before.update(j as int, pairs@[j as int]));
                    lemma_entries_view_update(before, j as int, pairs@[j as int]);
                }
            } else {
                let mut child = Json::Null;
                write_from(&mut child, parts, k + 1, x);
                pairs.push((owned(key), child));
                proof {
                    lemma_entries_view_push(before, pairs@[before.len() as int]);
                    assert(pairs@ =~= before.push(pairs@[before.len() as int]));
                }
            }
            *value = Json::Object(pairs);
        },
        _ => {
            let mut child = Json::Null;
            write_from(&mut child, parts, k + 1, x);
            let mut pairs: Vec<(String, Json)> = Vec::new();
            pairs.push((owned(key), child));
            proof {
                lemma_entries_view_push(Seq::empty(), pairs@[0]);
                assert(pairs@ =~= Seq::<(String, Json)>::empty().push(pairs@[0]));
                assert(entries_view(Seq::<(String, Json)>::empty()) =~= Seq::<(Seq<char>, JsonView)>::empty());
            }
            *value = Json::Object(pairs);
        },
    }
}

/// Write `x` into `value` at `parts`.
pub fn write_at(value: &mut Json, parts: &Vec<String>, x: Json)
    ensures
        final(value).view_json() == written(old(value).view_json(), parts_of(parts@), x.view_json()),
{
    assert(parts_of(parts@).skip(0) =~= parts_of(parts@));
    write_from(value, parts, 0, x);
}

/// `entries` without the first entry under `key`.
pub open spec fn remove_entry(entries: Seq<(Seq<char>, JsonView)>, key: Seq<char>) -> Seq<(Seq<char>, JsonView)> {
    let i = view_index(entries, key);
    if 0 <= i < entries.len() {
        entries.remove(i)
    } else {
        entries
    }
}

/// `v` with the entry at `parts` removed, and what was removed: the walk
/// goes through object entries (less one leading `#`) and indexed array
/// items, and the last segment names the object entry or array item taken
/// out (later items move up). Where the path reaches nothing, nothing
/// changes and nothing is removed.
pub open spec fn removal_at(v: JsonView, parts: Seq<Seq<char>>) -> (JsonView, Option<JsonView>)
    decreases parts.len(),
{
    if parts.len() == 0 {
        (v, None)
    } else {
        let seg = parts[0];
        let key = strip_hash_spec(seg);
        let rest = parts.drop_first();
        if rest.len() == 0 {
            match v {
                JsonView::Object(es) => match view_get(es, key) {
                    Some(c) => (JsonView::Object(remove_entry(es, key)), Some(c)),
                    None => (v, None),
                },
                JsonView::Array(items) => match index_of_segment(seg) {
                    Some(i) => if i < items.len() {
                        (JsonView::Array(items.remove(i as int)), Some(items[i as int]))
                    } else {
                        (v, None)
                    },
                    None => (v, None),
                },
                _ => (v, None),
            }
        } else {
            match v {
                JsonView::Object(es) => match view_get(es, key) {
                    Some(c) => {
                        let (c2, r) = removal_at(c, rest);
                        (JsonView::Object(set_entry(es, key, c2)), r)
                    },
                    None => (v, None),
                },
                JsonView::Array(items) => match index_of_segment(seg) {
                    Some(i) => if i < items.len() {
                        let (c2, r) = removal_at(items[i as int], rest);
                        (JsonView::Array(items.update(i as int, c2)), r)
                    } else {
                        (v, None)
                    },
                    None => (v, None),
                },
                _ => (v, None),
            }
        }
    }
}

/// What a removal takes out is what was at its path.
pub proof fn lemma_removal_takes_what_was_there(v: JsonView, parts: Seq<Seq<char>>)
    ensures
        removal_at(v, parts).1 matches Some(c) ==> view_follow(v, parts) == Some(c),
    decreases parts.len(),
{
    if parts.len() > 0 {
        let rest = parts.drop_first();
        if rest.len() > 0 {
            match v {
                JsonView::Object(es) => match view_get(es, strip_hash_spec(parts[0])) {
                    Some(c) => lemma_removal_takes_what_was_there(c, rest),
                    None => {},
                },
                JsonView::Array(items) => match index_of_segment(parts[0]) {
                    Some(i) => if i < items.len() {
                        lemma_removal_takes_what_was_there(items[i as int], rest);
                    },
                    None => {},
                },
                _ => {},
            }
        }
    }
}

/// The view of a list of entries after one entry is taken out.
proof fn lemma_entries_view_remove(entries: Seq<(String, Json)>, i: int)
    requires
        0 <= i < entries.len(),
    ensures
        entries_view(entries.remove(i)) == entries_view(entries).remove(i),
{
    let t = entries.remove(i);
    lemma_entries_view_len(entries);
    lemma_entries_view_len(t);
    assert forall|k: int| 0 <= k < t.len() implies entries_view(t)[k] == entries_view(entries).remove(i)[k] by {
        lemma_entries_view_index(t, k);
        if k < i {
            lemma_entries_view_index(entries, k);
        } else {
            lemma_entries_view_index(entries, k + 1);
        }
    }
    assert(entries_view(t) =~= entries_view(entries).remove(i));
}

/// The view of a list of items after one item is taken out.
proof fn lemma_items_view_remove(items: Seq<Json>, i: int)
    requires
        0 <= i < items.len(),
    ensures
        items_view(items.remove(i)) == items_view(items).remove(i),
{
    let t = items.remove(i);
    lemma_items_view_len(items);
    lemma_items_view_len(t);
    assert forall|k: int| 0 <= k < t.len() implies items_view(t)[k] == items_view(items).remove(i)[k] by {
        lemma_items_view_index(t, k);
        if k < i {
            lemma_items_view_index(items, k);
        } else {
            lemma_items_view_index(items, k + 1);
        }
    }
    assert(items_view(t) =~= items_view(items).remove(i));
}

/// Remove the entry at `parts[k..]` of `value`, giving what was removed.
fn remove_from(value: &mut Json, parts: &Vec<String>, k: usize) -> (r: Option<Json>)
    requires
        k <= parts@.len(),
    ensures
        final(value).view_json() == removal_at(old(value).view_json(), parts_of(parts@).skip(k as int)).0,
        match r {
            Some(c) => removal_at(old(value).view_json(), parts_of(parts@).skip(k as int)).1 == Some(c.view_json()),
            None => removal_at(old(value).view_json(), parts_of(parts@).skip(k as int)).1 is None,
        },
    decreases parts@.len() - k,
{
    let ghost ps = parts_of(parts@).skip(k as int);
    if k == parts.len() {
        assert(ps.len() == 0);
        return None;
    }
    assert(ps[0] == parts@[k as int]@);
    assert(ps.drop_first() =~= parts_of(parts@).skip(k + 1));
    let last = k + 1 == parts.len();
    assert(last ==> ps.drop_first().len() == 0);
    assert(!last ==> ps.drop_first().len() > 0);
    let seg = parts[k].as_str();
    let key = strip_hash(seg);
    assert(key@ == strip_hash_spec(ps[0]));
    let ghost v0 = value.view_json();
    let mut cur = Json::Null;
    std::mem::swap(&mut cur, value);
    match cur {
        Json::Object(mut pairs) => {
            let ghost before = pairs@;
            let j = find_key(&pairs, key);
            proof {
                lemma_entries_view_len(before);
                lemma_view_index_bounds(entries_view(before), key@);
            }
            if j < pairs.len() {
                proof {
                    lemma_entries_view_index(before, j as int);
                    assert(view_get(entries_view(before), key@) == Some(before[j as int].1.view_json()));
                }
                if last {
                    let (_, child) = pairs.remove(j);
                    proof {
                        lemma_entries_view_remove(before, j as int);
                        assert(remove_entry(entries_view(before), key@) == entries_view(before).remove(j as int));
                        assert(removal_at(JsonView::Object(entries_view(before)), ps) == (
                            JsonView::Object(entries_view(before).remove(j as int)),
                            Some(child.view_json()),
                        ));
                    }
                    *value = Json::Object(pairs);
                    assert(value.view_json() == removal_at(v0, ps).0);
                    Some(child)
                } else {
                    let (kk, mut child) = pairs.remove(j);
                    let ghost c0 = child.view_json();
                    assert(kk@ == key@);
                    let r = remove_from(&mut child, parts, k + 1);
                    pairs.insert(j, (kk, child));
                    proof {
                        assert(pairs@ =~= before.update(j as int, pairs@[j as int]));
                        lemma_entries_view_update(before, j as int, pairs@[j as int]);
                        assert(set_entry(entries_view(before), key@, child.view_json())
                            == entries_view(before).update(j as int, (key@, child.view_json())));
                        assert(removal_at(JsonView::Object(entries_view(before)), ps) == (
                            JsonView::Object(set_entry(entries_view(before), key@, removal_at(c0, ps.drop_first()).0)),
                            removal_at(c0, ps.drop_first()).1,
                        ));
                    }
                    *value = Json::Object(pairs);
                    assert(value.view_json() == removal_at(v0, ps).0);
                    r
                }
            } else {
                *value = Json::Object(pairs);
                assert(value.view_json() == removal_at(v0, ps).0);
                None
            }
        },
        Json::Array(mut items) => {
            let ghost before = items@;
            if last {
                let n_items = items.len();
                proof {
                    lemma_items_view_len(before);
                }
                match parse_index(seg) {
                    Some(i) => {
                        if i < n_items {
                            proof {
                                lemma_items_view_index(before, i as int);
                            }
                            let child = items.remove(i);
                            proof {
                                lemma_items_view_remove(before, i as int);
                            }
                            *value = Json::Array(items);
                            return Some(child);
                        }
                    },
                    None => {},
                }
                assert(seg@ == ps[0]);
                *value = Json::Array(items);
                assert(value.view_json() == removal_at(v0, ps).0);
                return None;
            }
            let idx = parse_index(seg);
            let fits = match idx {
                Some(i) => i < items.len(),
                None => false,
            };
            proof {
                lemma_items_view_len(before);
            }
            if fits {
                let i = idx.unwrap();
                let mut child = items.remove(i);
                proof {
                    lemma_items_view_index(before, i as int);
                }
                let ghost c0 = child.view_json();
                assert(index_of_segment(ps[0]) == Some(i as nat));
                assert(items_view(before)[i as int] == c0);
                assert(removal_at(v0, ps) == (
                    JsonView::Array(items_view(before).update(i as int, removal_at(c0, ps.drop_first()).0)),
                    removal_at(c0, ps.drop_first()).1,
                ));
                let r = remove_from(&mut child, parts, k + 1);
                items.insert(i, child);
                proof {
                    assert(items@ =~= before.update(i as int, child));
                    lemma_items_view_update(before, i as int, child);
                }
                *value = Json::Array(items);
                assert(value.view_json() == removal_at(v0, ps).0);
                r
            } else {
                let n_items = items.len();
                assert(n_items == items@.len());
                assert(seg@ == ps[0]);
                assert(items_view(before).len() == items@.len());
                assert(idx matches Some(i) ==> i >= items@.len());
                assert(idx is None ==> (index_of_segment(seg@) is None || index_of_segment(seg@).unwrap() > usize::MAX));
                proof {
                    match idx {
                        Some(i) => {
                            assert(index_of_segment(seg@) == Some(i as nat));
                        },
                        None => {},
                    }
                    match index_of_segment(ps[0]) {
                        Some(n) => {
                            assert(n >= items_view(before).len());
                        },
                        None => {},
                    }
                }
                assert(removal_at(v0, ps) == (v0, None::<JsonView>));
                *value = Json::Array(items);
                assert(value.view_json() == removal_at(v0, ps).0);
                None
            }
        },
        other => {
            *value = other;
            assert(value.view_json() == removal_at(v0, ps).0);
            None
        },
    }
}

/// Remove the entry at `parts` of `value`, giving what was removed.
pub fn remove_at(value: &mut Json, parts: &Vec<String>) -> (r: Option<Json>)
    ensures
        final(value).view_json() == removal_at(old(value).view_json(), parts_of(parts@)).0,
        match r {
            Some(c) => removal_at(old(value).view_json(), parts_of(parts@)).1 == Some(c.view_json()),
            None => removal_at(old(value).view_json(), parts_of(parts@)).1 is None,
        },
{
    assert(parts_of(parts@).skip(0) =~= parts_of(parts@));
    remove_from(value, parts, 0)
}

/// What `value` holds at `parts[k..]`.
fn get_from<'a>(value: &'a Json, parts: &Vec<String>, k: usize) -> (r: Option<&'a Json>)
    requires
        k <= parts@.len(),
    ensures
        match r {
            Some(v) => view_follow(value.view_json(), parts_of(parts@).skip(k as int)) == Some(v.view_json()),
            None => view_follow(value.view_json(), parts_of(parts@).skip(k as int)) is None,
        },
    decreases parts@.len() - k,
{
    let ghost ps = parts_of(parts@).skip(k as int);
    if k == parts.len() {
        assert(ps.len() == 0);
        return Some(value);
    }
    assert(ps[0] == parts@[k as int]@);
    assert(ps.drop_first() =~= parts_of(parts@).skip(k + 1));
    let seg = parts[k].as_str();
    match value {
        Json::Object(pairs) => {
            let key = strip_hash(seg);
            let j = find_key(pairs, key);
            proof {
                lemma_entries_view_len(pairs@);
                lemma_view_index_bounds(entries_view(pairs@), key@);
            }
            if j < pairs.len() {
                proof {
                    lemma_entries_view_index(pairs@, j as int);
                }
                get_from(&pairs[j].1, parts, k + 1)
            } else {
                None
            }
        },
        Json::Array(items) => {
            let n_items = items.len();
            proof {
                lemma_items_view_len(items@);
            }
            match parse_index(seg) {
                Some(i) => {
                    if i < n_items {
                        proof {
                            lemma_items_view_index(items@, i as int);
                        }
                        get_from(&items[i], parts, k + 1)
                    } else {
                        None
                    }
                },
                None => None,
            }
        },
        _ => None,
    }
}

/// What `value` holds at `parts`.
pub fn get_at<'a>(value: &'a Json, parts: &Vec<String>) -> (r: Option<&'a Json>)
    ensures
        match r {
            Some(v) => view_follow(value.view_json(), parts_of(parts@)) == Some(v.view_json()),
            None => view_follow(value.view_json(), parts_of(parts@)) is None,
        },
{
    assert(parts_of(parts@).skip(0) =~= parts_of(parts@));
    get_from(value, parts, 0)
}

/// The context after one mapping's effect.
pub open spec fn applied(context: JsonView, effect: EffectView) -> JsonView {
    match effect {
        EffectView::MergeRoot(root, v) => merge_root(context, root, v),
        EffectView::Write(parts, v) => written(context, parts, v),
        EffectView::Remove(parts) => removal_at(context, parts).0,
        EffectView::Skip => context,
        EffectView::Fail => context,
    }
}

/// The context after the first `n` effects, in order.
pub open spec fn applied_all(context: JsonView, effects: Seq<EffectView>, n: int) -> JsonView
    decreases n,
{
    if n <= 0 {
        context
    } else {
        applied(applied_all(context, effects, n - 1), effects[n - 1])
    }
}

/// Whether `dv` is where a mapping's path may resolve: the precomputed
/// destination of a constant path; for a path never compiled, the rooting of
/// its literal text (none for anything else); otherwise the rooting of some
/// text, or a failure.
pub open spec fn destination_fits(m: MapMapping, dv: Option<(Seq<char>, Seq<Seq<char>>)>) -> bool {
    match m.path.destination() {
        Some(p) => dv == Some(p),
        None => if !m.path.template().compiled() {
            dv == match literal_text(m.path.template().raw()) {
                Some(t) => Some(ContextRoot::rooted(t)),
                None => None,
            }
        } else {
            dv matches Some(p) ==> exists|t: Seq<char>| p == ContextRoot::rooted(t)
        },
    }
}

/// Whether `effect` is what mapping `m` does on the context `ctx`, having
/// evaluated to `ev` (`None` when evaluation failed) and resolved its path
/// to `dv` (`None` when it failed): a mapping that must evaluate and was
/// never compiled fails to evaluate, a scalar literal evaluates to itself,
/// a `{"var": "<path>"}` reads `ctx` as the engine's variable access does,
/// and the destination is as [`destination_fits`] says.
pub open spec fn mapping_step(
    m: MapMapping,
    ctx: JsonView,
    effect: EffectView,
    ev: Option<JsonView>,
    dv: Option<(Seq<char>, Seq<Seq<char>>)>,
) -> bool {
    &&& effect == effect_of(m.unset, m.on_null, ev, dv)
    &&& (!m.unset && m.compiled_logic is None ==> ev is None)
    &&& (!m.unset ==> match m.compiled_logic {
        Some(l) => scalar_view(l.source()) is Some ==> ev == Some(l.source()),
        None => true,
    })
    &&& (!m.unset ==> match m.compiled_logic {
        Some(l) => match var_path(l.source()) {
            Some(p) => plain_var_path(p) ==> (ev matches Some(x) && var_result_fits(
                var_at(ctx, split_dots(p)),
                x,
            )),
            None => true,
        },
        None => true,
    })
    &&& destination_fits(m, dv)
}

/// The dotted path a destination names, empty for a failed one.
pub open spec fn dotted_of(dv: Option<(Seq<char>, Seq<Seq<char>>)>) -> Seq<char> {
    match dv {
        Some(p) => p.0,
        None => Seq::empty(),
    }
}

/// Whether `effects` is what the mappings did, in order, for the
/// evaluations `evs` and destinations `dvs`, each mapping on the context
/// the mappings before it left.
pub open spec fn mapping_steps(
    mappings: Seq<MapMapping>,
    before: JsonView,
    effects: Seq<EffectView>,
    evs: Seq<Option<JsonView>>,
    dvs: Seq<Option<(Seq<char>, Seq<Seq<char>>)>>,
    n: int,
) -> bool {
    forall|i: int|
        0 <= i < n ==> mapping_step(
            mappings[i],
            applied_all(before, effects, i),
            #[trigger] effects[i],
            evs[i],
            dvs[i],
        )
}

/// The status of a run: `500` when any effect failed, `200` otherwise.
pub open spec fn run_status(effects: Seq<EffectView>) -> usize {
    if exists|i: int| 0 <= i < effects.len() && effects[i] is Fail {
        500
    } else {
        200
    }
}

/// The dotted paths of the destinations.
pub open spec fn dotteds_of(dvs: Seq<Option<(Seq<char>, Seq<Seq<char>>)>>) -> Seq<Seq<char>> {
    dvs.map_values(|dv: Option<(Seq<char>, Seq<Seq<char>>)>| dotted_of(dv))
}

/// What a run did to the context and recorded: for some evaluations and
/// destinations as the mappings allow, the effects were applied in order,
/// the status is [`run_status`], and with `capture` on each change was
/// recorded against the context the effects before it left.
pub open spec fn run_result(
    mappings: Seq<MapMapping>,
    before: JsonView,
    after: JsonView,
    capture: bool,
    status: usize,
    changes: Seq<(Seq<char>, JsonView, JsonView)>,
) -> bool {
    exists|effects: Seq<EffectView>, evs: Seq<Option<JsonView>>, dvs: Seq<Option<(Seq<char>, Seq<Seq<char>>)>>|
        {
            &&& effects.len() == mappings.len()
            &&& evs.len() == mappings.len()
            &&& dvs.len() == mappings.len()
            &&& #[trigger] mapping_steps(mappings, before, effects, evs, dvs, mappings.len() as int)
            &&& after == applied_all(before, effects, effects.len() as int)
            &&& status == run_status(effects)
            &&& changes == if capture {
                changes_of(before, effects, dotteds_of(dvs), effects.len() as int)
            } else {
                Seq::empty()
            }
        }
}

/// Apply one mapping's effect to the context; a failed mapping leaves it as
/// it was and gives `true`.
pub fn apply_effect(context: &mut Json, effect: MappingEffect) -> (failed: bool)
    ensures
        final(context).view_json() == applied(old(context).view_json(), effect.view_effect()),
        failed == (effect is Fail),
{
    match effect {
        MappingEffect::MergeRoot(root, v) => {
            merge_root_field(context, root.as_str(), v);
            false
        },
        MappingEffect::Write(parts, v) => {
            write_at(context, &parts, v);
            false
        },
        MappingEffect::Remove(parts) => {
            let _ = remove_at(context, &parts);
            false
        },
        MappingEffect::Skip => false,
        MappingEffect::Fail => true,
    }
}

/// A value found, or `null` when none was.
pub open spec fn or_null_view(v: Option<JsonView>) -> JsonView {
    match v {
        Some(x) => x,
        None => JsonView::Null,
    }
}

/// The change a mapping's effect records against the context `before` it,
/// as (path, old value, new value): a write or merge records what was at
/// the destination (`null` when nothing was) and what it wrote; a removal
/// that took something out records it and `null`; nothing else records.
pub open spec fn change_of(before: JsonView, effect: EffectView, dotted: Seq<char>) -> Option<(Seq<char>, JsonView, JsonView)> {
    match effect {
        EffectView::MergeRoot(root, v) => Some((dotted, or_null_view(view_follow(before, seq![root])), v)),
        EffectView::Write(parts, v) => Some((dotted, or_null_view(view_follow(before, parts)), v)),
        EffectView::Remove(parts) => match removal_at(before, parts).1 {
            Some(old) => Some((dotted, old, JsonView::Null)),
            None => None,
        },
        _ => None,
    }
}

/// The changes the first `n` effects record, in order, each against the
/// context the effects before it left.
pub open spec fn changes_of(
    start: JsonView,
    effects: Seq<EffectView>,
    dotteds: Seq<Seq<char>>,
    n: int,
) -> Seq<(Seq<char>, JsonView, JsonView)>
    decreases n,
{
    if n <= 0 {
        Seq::empty()
    } else {
        let rest = changes_of(start, effects, dotteds, n - 1);
        match change_of(applied_all(start, effects, n - 1), effects[n - 1], dotteds[n - 1]) {
            Some(c) => rest.push(c),
            None => rest,
        }
    }
}

/// The change an effect records against `context`, if any.
fn change_for(context: &Json, effect: &MappingEffect, dotted: &str) -> (r: Option<Change>)
    ensures
        match r {
            Some(c) => change_of(context.view_json(), effect.view_effect(), dotted@) == Some(change_view(c)),
            None => change_of(context.view_json(), effect.view_effect(), dotted@) is None,
        },
{
    match effect {
        MappingEffect::MergeRoot(root, v) => {
            let mut parts: Vec<String> = Vec::new();
            parts.push(owned(root.as_str()));
            assert(parts_of(parts@) =~= seq![root@]);
            let old = match get_at(context, &parts) {
                Some(x) => x.copy(),
                None => Json::Null,
            };
            Some(Change { path: owned(dotted), old_value: old, new_value: v.copy() })
        },
        MappingEffect::Write(parts, v) => {
            let old = match get_at(context, parts) {
                Some(x) => x.copy(),
                None => Json::Null,
            };
            Some(Change { path: owned(dotted), old_value: old, new_value: v.copy() })
        },
        MappingEffect::Remove(parts) => {
            let mut ctx = context.copy();
            match remove_at(&mut ctx, parts) {
                Some(old) => Some(Change { path: owned(dotted), old_value: old, new_value: Json::Null }),
                None => None,
            }
        },
        _ => None,
    }
}

/// A change as plain values.
pub open spec fn change_view(c: Change) -> (Seq<char>, JsonView, JsonView) {
    (c.path@, c.old_value.view_json(), c.new_value.view_json())
}

impl MapConfig {
    /// Run the mappings in order against `context`: each evaluates its
    /// logic and resolves its path against the context as the mappings
    /// before it left it, then writes, merges, removes, skips or fails as
    /// [`MapMapping::effect`] says. The status is `500` when any mapping
    /// failed, `200` otherwise; the other mappings still run. With `capture`
    /// on, each write and each removal that took something out is recorded,
    /// in order.
    pub fn execute_on(&self, context: &mut Json, engine: &LogicEngine, capture: bool) -> (r: (usize, Vec<Change>))
        ensures
            run_result(
                self.mappings@,
                old(context).view_json(),
                final(context).view_json(),
                capture,
                r.0,
                r.1@.map_values(|c: Change| change_view(c)),
            ),
    {
        let ghost start = context.view_json();
        let ghost mut effects: Seq<EffectView> = Seq::empty();
        let ghost mut evs: Seq<Option<JsonView>> = Seq::empty();
        let ghost mut dvs: Seq<Option<(Seq<char>, Seq<Seq<char>>)>> = Seq::empty();
        let mut changes: Vec<Change> = Vec::new();
        let mut failed = false;
        let mut i: usize = 0;
        while i < self.mappings.len()
            invariant
                i <= self.mappings@.len(),
                effects.len() == i,
                evs.len() == i,
                dvs.len() == i,
                mapping_steps(self.mappings@, start, effects, evs, dvs, i as int),
                context.view_json() == applied_all(start, effects, i as int),
                failed == exists|k: int| 0 <= k < i && effects[k] is Fail,
                !capture ==> changes@.len() == 0,
                capture ==> changes@.map_values(|c: Change| change_view(c)) == changes_of(start, effects, dotteds_of(dvs), i as int),
            decreases self.mappings@.len() - i,
        {
            let mapping = &self.mappings[i];
            let evaluation = if mapping.unset {
                Evaluation::Failed
            } else {
                match &mapping.compiled_logic {
                    Some(logic) => match logic.scalar_source() {
                        Some(v) => Evaluation::Value(v),
                        None => match engine.evaluate_json(logic, context) {
                            Ok(v) => Evaluation::Value(v),
                            Err(_) => Evaluation::Failed,
                        },
                    },
                    None => Evaluation::Failed,
                }
            };
            let destination = mapping.destination(engine, context);
            let dotted = match &destination {
                Destination::Path(d, _) => owned(d.as_str()),
                Destination::Failed => String::new(),
            };
            let ghost ev = evaluation_view(evaluation);
            let ghost dv = destination_view(destination);
            let effect = mapping.effect(evaluation, destination);
            let ghost e = effect.view_effect();
            assert(mapping_step(*mapping, context.view_json(), e, ev, dv));
            let ghost before_view = context.view_json();
            if capture {
                match change_for(context, &effect, dotted.as_str()) {
                    Some(c) => {
                        changes.push(c);
                    },
                    None => {},
                }
            }
            let this_failed = apply_effect(context, effect);
            proof {
                let ghost prev = effects;
                let ghost prev_dvs = dvs;
                effects = effects.push(e);
                evs = evs.push(ev);
                dvs = dvs.push(dv);
                assert(dotteds_of(dvs) =~= dotteds_of(prev_dvs).push(dotted_of(dv)));
                assert(dotteds_of(dvs).drop_last() =~= dotteds_of(prev_dvs));
                assert(effects.drop_last() =~= prev);
                lemma_changes_of_prefix(start, effects, dotteds_of(dvs), i as int);
                assert(changes_of(start, effects, dotteds_of(dvs), i as int) == changes_of(start, prev, dotteds_of(prev_dvs), i as int));
                assert(effects.drop_last() =~= prev);
                lemma_applied_all_prefix(start, effects, i as int);
                assert(applied_all(start, effects, i + 1) == applied(applied_all(start, prev, i as int), e));
                assert(forall|k: int| 0 <= k < i ==> effects[k] == prev[k]);
                assert forall|k: int| 0 <= k <= i implies applied_all(start, effects, k) == applied_all(
                    start,
                    prev,
                    k,
                ) by {
                    lemma_applied_all_prefix(start, effects, k);
                }
                assert(mapping_steps(self.mappings@, start, effects, evs, dvs, i + 1));
                assert(effects[i as int] == e);
                assert(this_failed == (e is Fail));
            }
            if this_failed {
                failed = true;
            }
            i = i + 1;
        }
        let status: usize = if failed {
            500
        } else {
            200
        };
        proof {
            assert(mapping_steps(self.mappings@, start, effects, evs, dvs, self.mappings@.len() as int));
            if !capture {
                assert(changes@.map_values(|c: Change| change_view(c)) =~= Seq::<(Seq<char>, JsonView, JsonView)>::empty());
            }
        }
        (status, changes)
    }
}

impl MapConfig {
    /// Run the mappings against the message's context (see
    /// [`MapConfig::execute_on`]), recording changes when the message
    /// captures them. It always succeeds: a failing mapping shows in the
    /// status.
    pub fn execute(&self, message: &mut Message, engine: &LogicEngine) -> (r: Result<
        (usize, Vec<Change>),
        DataflowError,
    >)
        ensures
            final(message).recorded_errors() == old(message).recorded_errors(),
            final(message).payload_value() == old(message).payload_value(),
            final(message).trail() == old(message).trail(),
            final(message).captures() == old(message).captures(),
            r matches Ok((status, changes)) && run_result(
                self.mappings@,
                old(message).ctx().view_json(),
                final(message).ctx().view_json(),
                old(message).captures(),
                status,
                changes@.map_values(|c: Change| change_view(c)),
            ),
    {
        let mut ctx = message.context().copy();
        let capture = message.capture_changes();
        let (status, changes) = self.execute_on(&mut ctx, engine, capture);
        message.replace_context(ctx);
        Ok((status, changes))
    }
}

/// The changes of the first `n` effects depend on those effects alone.
proof fn lemma_changes_of_prefix(start: JsonView, effects: Seq<EffectView>, dotteds: Seq<Seq<char>>, n: int)
    requires
        0 <= n < effects.len(),
        n < dotteds.len(),
    ensures
        changes_of(start, effects, dotteds, n) == changes_of(start, effects.drop_last(), dotteds.drop_last(), n),
    decreases n,
{
    if n > 0 {
        lemma_changes_of_prefix(start, effects, dotteds, n - 1);
        lemma_applied_all_prefix(start, effects, n - 1);
    }
}

/// Applying the first `n` effects depends on those effects alone.
proof fn lemma_applied_all_prefix(context: JsonView, effects: Seq<EffectView>, n: int)
    requires
        0 <= n < effects.len(),
    ensures
        applied_all(context, effects, n) == applied_all(context, effects.drop_last(), n),
    decreases n,
{
    if n > 0 {
        lemma_applied_all_prefix(context, effects, n - 1);
    }
}

} // verus!

//! The operator vocabulary a build evaluates.
//!
//! The engine runs JSONLogic in templating mode, where an unknown operator
//! name is not an error: the object echoes back as literal data. Whether a
//! single-key object is a live operator call or inert data therefore depends
//! on exactly which operator families the build enables.

use vstd::prelude::*;

verus! {

/// Names evaluated with no extension family enabled.
pub const CORE: [&'static str; 35] = [
    "val",
    "var",
    "==",
    "===",
    "!=",
    "!==",
    ">",
    ">=",
    "<",
    "<=",
    "!",
    "!!",
    "and",
    "or",
    "if",
    "?:",
    "+",
    "-",
    "*",
    "/",
    "%",
    "max",
    "min",
    "cat",
    "substr",
    "in",
    "merge",
    "filter",
    "map",
    "reduce",
    "all",
    "some",
    "none",
    "missing",
    "missing_some",
];

/// The names of family `datetime`: date and time operators.
pub const DATETIME: [&'static str; 6] = [
    "datetime",
    "timestamp",
    "parse_date",
    "format_date",
    "date_diff",
    "now",
];

/// The names of family `ext-string`: string operators.
pub const EXT_STRING: [&'static str; 7] = [
    "length",
    "starts_with",
    "ends_with",
    "upper",
    "lower",
    "trim",
    "split",
];

/// The names of family `ext-array`: array operators.
pub const EXT_ARRAY: [&'static str; 4] = [
    "sort",
    "slice",
    "group_by",
    "distinct",
];

/// The names of family `ext-object`: object operators.
pub const EXT_OBJECT: [&'static str; 3] = [
    "keys",
    "values",
    "entries",
];

/// The names of family `ext-control`: control-flow operators.
pub const EXT_CONTROL: [&'static str; 5] = [
    "exists",
    "??",
    "switch",
    "match",
    "type",
];

/// The names of family `ext-math`: math operators.
pub const EXT_MATH: [&'static str; 3] = [
    "abs",
    "ceil",
    "floor",
];

/// The names of family `error-handling`: `try` and `throw`.
pub const ERROR_HANDLING: [&'static str; 2] = [
    "try",
    "throw",
];

/// Which extension families a build enables.
#[derive(Debug, Clone, Copy, PartialEq, Eq, Structural)]
pub struct OperatorFamilies {
    /// `datetime`: date and time operators.
    pub datetime: bool,
    /// `ext-string`: string operators.
    pub ext_string: bool,
    /// `ext-array`: array operators.
    pub ext_array: bool,
    /// `ext-object`: object operators.
    pub ext_object: bool,
    /// `ext-control`: control-flow operators.
    pub ext_control: bool,
    /// `ext-math`: math operators.
    pub ext_math: bool,
    /// `error-handling`: `try` and `throw`.
    pub error_handling: bool,
}

impl OperatorFamilies {
    /// No extension family: the core vocabulary alone.
    pub fn none() -> (r: OperatorFamilies)
        ensures
            !r.datetime,
            !r.ext_string,
            !r.ext_array,
            !r.ext_object,
            !r.ext_control,
            !r.ext_math,
            !r.error_handling,
    {
        OperatorFamilies { datetime: false, ext_string: false, ext_array: false, ext_object: false, ext_control: false, ext_math: false, error_handling: false }
    }

    /// Every extension family.
    pub fn all() -> (r: OperatorFamilies)
        ensures
            r.datetime,
            r.ext_string,
            r.ext_array,
            r.ext_object,
            r.ext_control,
            r.ext_math,
            r.error_handling,
    {
        OperatorFamilies { datetime: true, ext_string: true, ext_array: true, ext_object: true, ext_control: true, ext_math: true, error_handling: true }
    }
}

/// The core names.
pub open spec fn core_names() -> Seq<Seq<char>> {
    seq!["val"@, "var"@, "=="@, "==="@, "!="@, "!=="@, ">"@, ">="@, "<"@, "<="@, "!"@, "!!"@, "and"@, "or"@, "if"@, "?:"@, "+"@, "-"@, "*"@, "/"@, "%"@, "max"@, "min"@, "cat"@, "substr"@, "in"@, "merge"@, "filter"@, "map"@, "reduce"@, "all"@, "some"@, "none"@, "missing"@, "missing_some"@]
}

/// The names of family `datetime`: date and time operators.
pub open spec fn datetime_names() -> Seq<Seq<char>> {
    seq!["datetime"@, "timestamp"@, "parse_date"@, "format_date"@, "date_diff"@, "now"@]
}

/// The names of family `ext-string`: string operators.
pub open spec fn ext_string_names() -> Seq<Seq<char>> {
    seq!["length"@, "starts_with"@, "ends_with"@, "upper"@, "lower"@, "trim"@, "split"@]
}

/// The names of family `ext-array`: array operators.
pub open spec fn ext_array_names() -> Seq<Seq<char>> {
    seq!["sort"@, "slice"@, "group_by"@, "distinct"@]
}

/// The names of family `ext-object`: object operators.
pub open spec fn ext_object_names() -> Seq<Seq<char>> {
    seq!["keys"@, "values"@, "entries"@]
}

/// The names of family `ext-control`: control-flow operators.
pub open spec fn ext_control_names() -> Seq<Seq<char>> {
    seq!["exists"@, "??"@, "switch"@, "match"@, "type"@]
}

/// The names of family `ext-math`: math operators.
pub open spec fn ext_math_names() -> Seq<Seq<char>> {
    seq!["abs"@, "ceil"@, "floor"@]
}

/// The names of family `error-handling`: `try` and `throw`.
pub open spec fn error_handling_names() -> Seq<Seq<char>> {
    seq!["try"@, "throw"@]
}

/// The names of a family when it is enabled, none otherwise.
pub open spec fn if_enabled(enabled: bool, names: Seq<Seq<char>>) -> Seq<Seq<char>> {
    if enabled {
        names
    } else {
        Seq::empty()
    }
}

/// Every operator name a build with these families evaluates, before custom
/// registrations: the core, then each enabled family in turn.
pub open spec fn operator_names(f: OperatorFamilies) -> Seq<Seq<char>> {
    core_names() + if_enabled(f.datetime, datetime_names()) + if_enabled(f.ext_string, ext_string_names()) + if_enabled(f.ext_array, ext_array_names()) + if_enabled(f.ext_object, ext_object_names()) + if_enabled(f.ext_control, ext_control_names()) + if_enabled(f.ext_math, ext_math_names()) + if_enabled(f.error_handling, error_handling_names())
}

/// The views of a list of names.
pub open spec fn str_views(names: Seq<&'static str>) -> Seq<Seq<char>> {
    names.map_values(|n: &'static str| n@)
}

/// Append the names of `family` to `out`.
fn extend<const N: usize>(out: &mut Vec<&'static str>, family: &[&'static str; N])
    ensures
        str_views(final(out)@) == str_views(old(out)@) + str_views(family@),
{
    let ghost start = str_views(out@);
    let mut i: usize = 0;
    assert(family@.take(0) =~= Seq::<&'static str>::empty());
    assert(str_views(out@) =~= start + str_views(family@.take(0)));
    while i < N
        invariant
            i <= N,
            N == family@.len(),
            str_views(out@) == start + str_views(family@.take(i as int)),
        decreases N - i,
    {
        let name: &'static str = family[i];
        assert(name == family@[i as int]);
        let ghost before = out@;
        out.push(name);
        assert(out@ =~= before.push(name));
        assert(family@.take(i + 1) =~= family@.take(i as int).push(family@[i as int]));
        assert(str_views(before.push(name)) =~= str_views(before).push(name@));
        assert(str_views(family@.take(i + 1)) =~= str_views(family@.take(i as int)).push(name@));
        assert(str_views(out@) =~= start + str_views(family@.take(i + 1)));
        i = i + 1;
    }
    assert(family@.take(N as int) =~= family@);
}

proof fn lemma_families()
    ensures
        str_views(CORE@) == core_names(),
        str_views(DATETIME@) == datetime_names(),
        str_views(EXT_STRING@) == ext_string_names(),
        str_views(EXT_ARRAY@) == ext_array_names(),
        str_views(EXT_OBJECT@) == ext_object_names(),
        str_views(EXT_CONTROL@) == ext_control_names(),
        str_views(EXT_MATH@) == ext_math_names(),
        str_views(ERROR_HANDLING@) == error_handling_names(),
{
    assert(str_views(CORE@) =~= core_names());
    assert(str_views(DATETIME@) =~= datetime_names());
    assert(str_views(EXT_STRING@) =~= ext_string_names());
    assert(str_views(EXT_ARRAY@) =~= ext_array_names());
    assert(str_views(EXT_OBJECT@) =~= ext_object_names());
    assert(str_views(EXT_CONTROL@) =~= ext_control_names());
    assert(str_views(EXT_MATH@) =~= ext_math_names());
    assert(str_views(ERROR_HANDLING@) =~= error_handling_names());
}

/// Every operator name a build with these families evaluates, before custom
/// registrations. Enabling a family adds its names, and with them makes an
/// object keyed by one a live call rather than inert data.
pub fn builtin_operator_names(families: &OperatorFamilies) -> (r: Vec<&'static str>)
    ensures
        str_views(r@) == operator_names(*families),
{
    proof {
        lemma_families();
    }
    let mut out: Vec<&'static str> = Vec::new();
    assert(str_views(out@) =~= Seq::<Seq<char>>::empty());
    extend(&mut out, &CORE);
    if families.datetime {
        extend(&mut out, &DATETIME);
    }
    if families.ext_string {
        extend(&mut out, &EXT_STRING);
    }
    if families.ext_array {
        extend(&mut out, &EXT_ARRAY);
    }
    if families.ext_object {
        extend(&mut out, &EXT_OBJECT);
    }
    if families.ext_control {
        extend(&mut out, &EXT_CONTROL);
    }
    if families.ext_math {
        extend(&mut out, &EXT_MATH);
    }
    if families.error_handling {
        extend(&mut out, &ERROR_HANDLING);
    }
    assert(str_views(out@) =~= operator_names(*families));
    out
}

/// Whether no name of `a` is a name of `b`.
pub open spec fn disjoint(a: Seq<Seq<char>>, b: Seq<Seq<char>>) -> bool {
    forall|i: int, j: int| 0 <= i < a.len() && 0 <= j < b.len() ==> a[i] != b[j]
}

/// Two names differ when their lengths, first characters or last
/// characters do; that is how the lemmas below tell the names apart.
proof fn lemma_names_differ(a: Seq<char>, b: Seq<char>)
    requires
        a.len() > 0,
        b.len() > 0,
        a.len() != b.len() || a[0] != b[0] || a[a.len() - 1] != b[b.len() - 1],
    ensures
        a != b,
{
}

proof fn lemma_core_distinct()
    ensures
        core_names().no_duplicates(),
{
    reveal_strlit("val");
    reveal_strlit("var");
    reveal_strlit("==");
    reveal_strlit("===");
    reveal_strlit("!=");
    reveal_strlit("!==");
    reveal_strlit(">");
    reveal_strlit(">=");
    reveal_strlit("<");
    reveal_strlit("<=");
    reveal_strlit("!");
    reveal_strlit("!!");
    reveal_strlit("and");
    reveal_strlit("or");
    reveal_strlit("if");
    reveal_strlit("?:");
    reveal_strlit("+");
    reveal_strlit("-");
    reveal_strlit("*");
    reveal_strlit("/");
    reveal_strlit("%");
    reveal_strlit("max");
    reveal_strlit("min");
    reveal_strlit("cat");
    reveal_strlit("substr");
    reveal_strlit("in");
    reveal_strlit("merge");
    reveal_strlit("filter");
    reveal_strlit("map");
    reveal_strlit("reduce");
    reveal_strlit("all");
    reveal_strlit("some");
    reveal_strlit("none");
    reveal_strlit("missing");
    reveal_strlit("missing_some");
    let c = core_names();
    assert forall|i: int, j: int| 0 <= i < c.len() && 0 <= j < c.len() && i != j implies c[i] != c[j] by {
        lemma_names_differ(c[i], c[j]);
    }
}

proof fn lemma_datetime_distinct()
    ensures
        datetime_names().no_duplicates(),
{
    reveal_strlit("datetime");
    reveal_strlit("timestamp");
    reveal_strlit("parse_date");
    reveal_strlit("format_date");
    reveal_strlit("date_diff");
    reveal_strlit("now");
    let c = datetime_names();
    assert forall|i: int, j: int| 0 <= i < c.len() && 0 <= j < c.len() && i != j implies c[i] != c[j] by {
        lemma_names_differ(c[i], c[j]);
    }
}

proof fn lemma_ext_string_distinct()
    ensures
        ext_string_names().no_duplicates(),
{
    reveal_strlit("length");
    reveal_strlit("starts_with");
    reveal_strlit("ends_with");
    reveal_strlit("upper");
    reveal_strlit("lower");
    reveal_strlit("trim");
    reveal_strlit("split");
    let c = ext_string_names();
    assert forall|i: int, j: int| 0 <= i < c.len() && 0 <= j < c.len() && i != j implies c[i] != c[j] by {
        lemma_names_differ(c[i], c[j]);
    }
}

proof fn lemma_ext_array_distinct()
    ensures
        ext_array_names().no_duplicates(),
{
    reveal_strlit("sort");
    reveal_strlit("slice");
    reveal_strlit("group_by");
    reveal_strlit("distinct");
    let c = ext_array_names();
    assert forall|i: int, j: int| 0 <= i < c.len() && 0 <= j < c.len() && i != j implies c[i] != c[j] by {
        lemma_names_differ(c[i], c[j]);
    }
}

proof fn lemma_ext_object_distinct()
    ensures
        ext_object_names().no_duplicates(),
{
    reveal_strlit("keys");
    reveal_strlit("values");
    reveal_strlit("entries");
    let c = ext_object_names();
    assert forall|i: int, j: int| 0 <= i < c.len() && 0 <= j < c.len() && i != j implies c[i] != c[j] by {
        lemma_names_differ(c[i], c[j]);
    }
}

proof fn lemma_ext_control_distinct()
    ensures
        ext_control_names().no_duplicates(),
{
    reveal_strlit("exists");
    reveal_strlit("??");
    reveal_strlit("switch");
    reveal_strlit("match");
    reveal_strlit("type");
    let c = ext_control_names();
    assert forall|i: int, j: int| 0 <= i < c.len() && 0 <= j < c.len() && i != j implies c[i] != c[j] by {
        lemma_names_differ(c[i], c[j]);
    }
}

proof fn lemma_ext_math_distinct()
    ensures
        ext_math_names().no_duplicates(),
{
    reveal_strlit("abs");
    reveal_strlit("ceil");
    reveal_strlit("floor");
    let c = ext_math_names();
    assert forall|i: int, j: int| 0 <= i < c.len() && 0 <= j < c.len() && i != j implies c[i] != c[j] by {
        lemma_names_differ(c[i], c[j]);
    }
}

proof fn lemma_error_handling_distinct()
    ensures
        error_handling_names().no_duplicates(),
{
    reveal_strlit("try");
    reveal_strlit("throw");
    let c = error_handling_names();
    assert forall|i: int, j: int| 0 <= i < c.len() && 0 <= j < c.len() && i != j implies c[i] != c[j] by {
        lemma_names_differ(c[i], c[j]);
    }
}

proof fn lemma_core_datetime_disjoint()
    ensures
        disjoint(core_names(), datetime_names()),
{
    reveal_strlit("!");
    reveal_strlit("!!");
    reveal_strlit("!=");
    reveal_strlit("!==");
    reveal_strlit("%");
    reveal_strlit("*");
    reveal_strlit("+");
    reveal_strlit("-");
    reveal_strlit("/");
    reveal_strlit("<");
    reveal_strlit("<=");
    reveal_strlit("==");
    reveal_strlit("===");
    reveal_strlit(">");
    reveal_strlit(">=");
    reveal_strlit("?:");
    reveal_strlit("all");
    reveal_strlit("and");
    reveal_strlit("cat");
    reveal_strlit("date_diff");
    reveal_strlit("datetime");
    reveal_strlit("filter");
    reveal_strlit("format_date");
    reveal_strlit("if");
    reveal_strlit("in");
    reveal_strlit("map");
    reveal_strlit("max");
    reveal_strlit("merge");
    reveal_strlit("min");
    reveal_strlit("missing");
    reveal_strlit("missing_some");
    reveal_strlit("none");
    reveal_strlit("now");
    reveal_strlit("or");
    reveal_strlit("parse_date");
    reveal_strlit("reduce");
    reveal_strlit("some");
    reveal_strlit("substr");
    reveal_strlit("timestamp");
    reveal_strlit("val");
    reveal_strlit("var");
    let x = core_names();
    let y = datetime_names();
    assert forall|i: int, j: int| 0 <= i < x.len() && 0 <= j < y.len() implies x[i] != y[j] by {
        lemma_names_differ(x[i], y[j]);
    }
}

proof fn lemma_core_ext_string_disjoint()
    ensures
        disjoint(core_names(), ext_string_names()),
{
    reveal_strlit("!");
    reveal_strlit("!!");
    reveal_strlit("!=");
    reveal_strlit("!==");
    reveal_strlit("%");
    reveal_strlit("*");
    reveal_strlit("+");
    reveal_strlit("-");
    reveal_strlit("/");
    reveal_strlit("<");
    reveal_strlit("<=");
    reveal_strlit("==");
    reveal_strlit("===");
    reveal_strlit(">");
    reveal_strlit(">=");
    reveal_strlit("?:");
    reveal_strlit("all");
    reveal_strlit("and");
    reveal_strlit("cat");
    reveal_strlit("ends_with");
    reveal_strlit("filter");
    reveal_strlit("if");
    reveal_strlit("in");
    reveal_strlit("length");
    reveal_strlit("lower");
    reveal_strlit("map");
    reveal_strlit("max");
    reveal_strlit("merge");
    reveal_strlit("min");
    reveal_strlit("missing");
    reveal_strlit("missing_some");
    reveal_strlit("none");
    reveal_strlit("or");
    reveal_strlit("reduce");
    reveal_strlit("some");
    reveal_strlit("split");
    reveal_strlit("starts_with");
    reveal_strlit("substr");
    reveal_strlit("trim");
    reveal_strlit("upper");
    reveal_strlit("val");
    reveal_strlit("var");
    let x = core_names();
    let y = ext_string_names();
    assert forall|i: int, j: int| 0 <= i < x.len() && 0 <= j < y.len() implies x[i] != y[j] by {
        lemma_names_differ(x[i], y[j]);
    }
}

proof fn lemma_core_ext_array_disjoint()
    ensures
        disjoint(core_names(), ext_array_names()),
{
    reveal_strlit("!");
    reveal_strlit("!!");
    reveal_strlit("!=");
    reveal_strlit("!==");
    reveal_strlit("%");
    reveal_strlit("*");
    reveal_strlit("+");
    reveal_strlit("-");
    reveal_strlit("/");
    reveal_strlit("<");
    reveal_strlit("<=");
    reveal_strlit("==");
    reveal_strlit("===");
    reveal_strlit(">");
    reveal_strlit(">=");
    reveal_strlit("?:");
    reveal_strlit("all");
    reveal_strlit("and");
    reveal_strlit("cat");
    reveal_strlit("distinct");
    reveal_strlit("filter");
    reveal_strlit("group_by");
    reveal_strlit("if");
    reveal_strlit("in");
    reveal_strlit("map");
    reveal_strlit("max");
    reveal_strlit("merge");
    reveal_strlit("min");
    reveal_strlit("missing");
    reveal_strlit("missing_some");
    reveal_strlit("none");
    reveal_strlit("or");
    reveal_strlit("reduce");
    reveal_strlit("slice");
    reveal_strlit("some");
    reveal_strlit("sort");
    reveal_strlit("substr");
    reveal_strlit("val");
    reveal_strlit("var");
    let x = core_names();
    let y = ext_array_names();
    assert forall|i: int, j: int| 0 <= i < x.len() && 0 <= j < y.len() implies x[i] != y[j] by {
        lemma_names_differ(x[i], y[j]);
    }
}

proof fn lemma_core_ext_object_disjoint()
    ensures
        disjoint(core_names(), ext_object_names()),
{
    reveal_strlit("!");
    reveal_strlit("!!");
    reveal_strlit("!=");
    reveal_strlit("!==");
    reveal_strlit("%");
    reveal_strlit("*");
    reveal_strlit("+");
    reveal_strlit("-");
    reveal_strlit("/");
    reveal_strlit("<");
    reveal_strlit("<=");
    reveal_strlit("==");
    reveal_strlit("===");
    reveal_strlit(">");
    reveal_strlit(">=");
    reveal_strlit("?:");
    reveal_strlit("all");
    reveal_strlit("and");
    reveal_strlit("cat");
    reveal_strlit("entries");
    reveal_strlit("filter");
    reveal_strlit("if");
    reveal_strlit("in");
    reveal_strlit("keys");
    reveal_strlit("map");
    reveal_strlit("max");
    reveal_strlit("merge");
    reveal_strlit("min");
    reveal_strlit("missing");
    reveal_strlit("missing_some");
    reveal_strlit("none");
    reveal_strlit("or");
    reveal_strlit("reduce");
    reveal_strlit("some");
    reveal_strlit("substr");
    reveal_strlit("val");
    reveal_strlit("values");
    reveal_strlit("var");
    let x = core_names();
    let y = ext_object_names();
    assert forall|i: int, j: int| 0 <= i < x.len() && 0 <= j < y.len() implies x[i] != y[j] by {
        lemma_names_differ(x[i], y[j]);
    }
}

proof fn lemma_core_ext_control_disjoint()
    ensures
        disjoint(core_names(), ext_control_names()),
{
    reveal_strlit("!");
    reveal_strlit("!!");
    reveal_strlit("!=");
    reveal_strlit("!==");
    reveal_strlit("%");
    reveal_strlit("*");
    reveal_strlit("+");
    reveal_strlit("-");
    reveal_strlit("/");
    reveal_strlit("<");
    reveal_strlit("<=");
    reveal_strlit("==");
    reveal_strlit("===");
    reveal_strlit(">");
    reveal_strlit(">=");
    reveal_strlit("?:");
    reveal_strlit("??");
    reveal_strlit("all");
    reveal_strlit("and");
    reveal_strlit("cat");
    reveal_strlit("exists");
    reveal_strlit("filter");
    reveal_strlit("if");
    reveal_strlit("in");
    reveal_strlit("map");
    reveal_strlit("match");
    reveal_strlit("max");
    reveal_strlit("merge");
    reveal_strlit("min");
    reveal_strlit("missing");
    reveal_strlit("missing_some");
    reveal_strlit("none");
    reveal_strlit("or");
    reveal_strlit("reduce");
    reveal_strlit("some");
    reveal_strlit("substr");
    reveal_strlit("switch");
    reveal_strlit("type");
    reveal_strlit("val");
    reveal_strlit("var");
    let x = core_names();
    let y = ext_control_names();
    assert forall|i: int, j: int| 0 <= i < x.len() && 0 <= j < y.len() implies x[i] != y[j] by {
        lemma_names_differ(x[i], y[j]);
    }
}

proof fn lemma_core_ext_math_disjoint()
    ensures
        disjoint(core_names(), ext_math_names()),
{
    reveal_strlit("!");
    reveal_strlit("!!");
    reveal_strlit("!=");
    reveal_strlit("!==");
    reveal_strlit("%");
    reveal_strlit("*");
    reveal_strlit("+");
    reveal_strlit("-");
    reveal_strlit("/");
    reveal_strlit("<");
    reveal_strlit("<=");
    reveal_strlit("==");
    reveal_strlit("===");
    reveal_strlit(">");
    reveal_strlit(">=");
    reveal_strlit("?:");
    reveal_strlit("abs");
    reveal_strlit("all");
    reveal_strlit("and");
    reveal_strlit("cat");
    reveal_strlit("ceil");
    reveal_strlit("filter");
    reveal_strlit("floor");
    reveal_strlit("if");
    reveal_strlit("in");
    reveal_strlit("map");
    reveal_strlit("max");
    reveal_strlit("merge");
    reveal_strlit("min");
    reveal_strlit("missing");
    reveal_strlit("missing_some");
    reveal_strlit("none");
    reveal_strlit("or");
    reveal_strlit("reduce");
    reveal_strlit("some");
    reveal_strlit("substr");
    reveal_strlit("val");
    reveal_strlit("var");
    let x = core_names();
    let y = ext_math_names();
    assert forall|i: int, j: int| 0 <= i < x.len() && 0 <= j < y.len() implies x[i] != y[j] by {
        lemma_names_differ(x[i], y[j]);
    }
}

proof fn lemma_core_error_handling_disjoint()
    ensures
        disjoint(core_names(), error_handling_names()),
{
    reveal_strlit("!");
    reveal_strlit("!!");
    reveal_strlit("!=");
    reveal_strlit("!==");
    reveal_strlit("%");
    reveal_strlit("*");
    reveal_strlit("+");
    reveal_strlit("-");
    reveal_strlit("/");
    reveal_strlit("<");
    reveal_strlit("<=");
    reveal_strlit("==");
    reveal_strlit("===");
    reveal_strlit(">");
    reveal_strlit(">=");
    reveal_strlit("?:");
    reveal_strlit("all");
    reveal_strlit("and");
    reveal_strlit("cat");
    reveal_strlit("filter");
    reveal_strlit("if");
    reveal_strlit("in");
    reveal_strlit("map");
    reveal_strlit("max");
    reveal_strlit("merge");
    reveal_strlit("min");
    reveal_strlit("missing");
    reveal_strlit("missing_some");
    reveal_strlit("none");
    reveal_strlit("or");
    reveal_strlit("reduce");
    reveal_strlit("some");
    reveal_strlit("substr");
    reveal_strlit("throw");
    reveal_strlit("try");
    reveal_strlit("val");
    reveal_strlit("var");
    let x = core_names();
    let y = error_handling_names();
    assert forall|i: int, j: int| 0 <= i < x.len() && 0 <= j < y.len() implies x[i] != y[j] by {
        lemma_names_differ(x[i], y[j]);
    }
}

proof fn lemma_datetime_ext_string_disjoint()
    ensures
        disjoint(datetime_names(), ext_string_names()),
{
    reveal_strlit("date_diff");
    reveal_strlit("datetime");
    reveal_strlit("ends_with");
    reveal_strlit("format_date");
    reveal_strlit("length");
    reveal_strlit("lower");
    reveal_strlit("now");
    reveal_strlit("parse_date");
    reveal_strlit("split");
    reveal_strlit("starts_with");
    reveal_strlit("timestamp");
    reveal_strlit("trim");
    reveal_strlit("upper");
    let x = datetime_names();
    let y = ext_string_names();
    assert forall|i: int, j: int| 0 <= i < x.len() && 0 <= j < y.len() implies x[i] != y[j] by {
        lemma_names_differ(x[i], y[j]);
    }
}

proof fn lemma_datetime_ext_array_disjoint()
    ensures
        disjoint(datetime_names(), ext_array_names()),
{
    reveal_strlit("date_diff");
    reveal_strlit("datetime");
    reveal_strlit("distinct");
    reveal_strlit("format_date");
    reveal_strlit("group_by");
    reveal_strlit("now");
    reveal_strlit("parse_date");
    reveal_strlit("slice");
    reveal_strlit("sort");
    reveal_strlit("timestamp");
    let x = datetime_names();
    let y = ext_array_names();
    assert forall|i: int, j: int| 0 <= i < x.len() && 0 <= j < y.len() implies x[i] != y[j] by {
        lemma_names_differ(x[i], y[j]);
    }
}

proof fn lemma_datetime_ext_object_disjoint()
    ensures
        disjoint(datetime_names(), ext_object_names()),
{
    reveal_strlit("date_diff");
    reveal_strlit("datetime");
    reveal_strlit("entries");
    reveal_strlit("format_date");
    reveal_strlit("keys");
    reveal_strlit("now");
    reveal_strlit("parse_date");
    reveal_strlit("timestamp");
    reveal_strlit("values");
    let x = datetime_names();
    let y = ext_object_names();
    assert forall|i: int, j: int| 0 <= i < x.len() && 0 <= j < y.len() implies x[i] != y[j] by {
        lemma_names_differ(x[i], y[j]);
    }
}

proof fn lemma_datetime_ext_control_disjoint()
    ensures
        disjoint(datetime_names(), ext_control_names()),
{
    reveal_strlit("??");
    reveal_strlit("date_diff");
    reveal_strlit("datetime");
    reveal_strlit("exists");
    reveal_strlit("format_date");
    reveal_strlit("match");
    reveal_strlit("now");
    reveal_strlit("parse_date");
    reveal_strlit("switch");
    reveal_strlit("timestamp");
    reveal_strlit("type");
    let x = datetime_names();
    let y = ext_control_names();
    assert forall|i: int, j: int| 0 <= i < x.len() && 0 <= j < y.len() implies x[i] != y[j] by {
        lemma_names_differ(x[i], y[j]);
    }
}

proof fn lemma_datetime_ext_math_disjoint()
    ensures
        disjoint(datetime_names(), ext_math_names()),
{
    reveal_strlit("abs");
    reveal_strlit("ceil");
    reveal_strlit("date_diff");
    reveal_strlit("datetime");
    reveal_strlit("floor");
    reveal_strlit("format_date");
    reveal_strlit("now");
    reveal_strlit("parse_date");
    reveal_strlit("timestamp");
    let x = datetime_names();
    let y = ext_math_names();
    assert forall|i: int, j: int| 0 <= i < x.len() && 0 <= j < y.len() implies x[i] != y[j] by {
        lemma_names_differ(x[i], y[j]);
    }
}

proof fn lemma_datetime_error_handling_disjoint()
    ensures
        disjoint(datetime_names(), error_handling_names()),
{
    reveal_strlit("date_diff");
    reveal_strlit("datetime");
    reveal_strlit("format_date");
    reveal_strlit("now");
    reveal_strlit("parse_date");
    reveal_strlit("throw");
    reveal_strlit("timestamp");
    reveal_strlit("try");
    let x = datetime_names();
    let y = error_handling_names();
    assert forall|i: int, j: int| 0 <= i < x.len() && 0 <= j < y.len() implies x[i] != y[j] by {
        lemma_names_differ(x[i], y[j]);
    }
}

proof fn lemma_ext_string_ext_array_disjoint()
    ensures
        disjoint(ext_string_names(), ext_array_names()),
{
    reveal_strlit("distinct");
    reveal_strlit("ends_with");
    reveal_strlit("group_by");
    reveal_strlit("length");
    reveal_strlit("lower");
    reveal_strlit("slice");
    reveal_strlit("sort");
    reveal_strlit("split");
    reveal_strlit("starts_with");
    reveal_strlit("trim");
    reveal_strlit("upper");
    let x = ext_string_names();
    let y = ext_array_names();
    assert forall|i: int, j: int| 0 <= i < x.len() && 0 <= j < y.len() implies x[i] != y[j] by {
        lemma_names_differ(x[i], y[j]);
    }
}

proof fn lemma_ext_string_ext_object_disjoint()
    ensures
        disjoint(ext_string_names(), ext_object_names()),
{
    reveal_strlit("ends_with");
    reveal_strlit("entries");
    reveal_strlit("keys");
    reveal_strlit("length");
    reveal_strlit("lower");
    reveal_strlit("split");
    reveal_strlit("starts_with");
    reveal_strlit("trim");
    reveal_strlit("upper");
    reveal_strlit("values");
    let x = ext_string_names();
    let y = ext_object_names();
    assert forall|i: int, j: int| 0 <= i < x.len() && 0 <= j < y.len() implies x[i] != y[j] by {
        lemma_names_differ(x[i], y[j]);
    }
}

proof fn lemma_ext_string_ext_control_disjoint()
    ensures
        disjoint(ext_string_names(), ext_control_names()),
{
    reveal_strlit("??");
    reveal_strlit("ends_with");
    reveal_strlit("exists");
    reveal_strlit("length");
    reveal_strlit("lower");
    reveal_strlit("match");
    reveal_strlit("split");
    reveal_strlit("starts_with");
    reveal_strlit("switch");
    reveal_strlit("trim");
    reveal_strlit("type");
    reveal_strlit("upper");
    let x = ext_string_names();
    let y = ext_control_names();
    assert forall|i: int, j: int| 0 <= i < x.len() && 0 <= j < y.len() implies x[i] != y[j] by {
        lemma_names_differ(x[i], y[j]);
    }
}

proof fn lemma_ext_string_ext_math_disjoint()
    ensures
        disjoint(ext_string_names(), ext_math_names()),
{
    reveal_strlit("abs");
    reveal_strlit("ceil");
    reveal_strlit("ends_with");
    reveal_strlit("floor");
    reveal_strlit("length");
    reveal_strlit("lower");
    reveal_strlit("split");
    reveal_strlit("starts_with");
    reveal_strlit("trim");
    reveal_strlit("upper");
    let x = ext_string_names();
    let y = ext_math_names();
    assert forall|i: int, j: int| 0 <= i < x.len() && 0 <= j < y.len() implies x[i] != y[j] by {
        lemma_names_differ(x[i], y[j]);
    }
}

proof fn lemma_ext_string_error_handling_disjoint()
    ensures
        disjoint(ext_string_names(), error_handling_names()),
{
    reveal_strlit("ends_with");
    reveal_strlit("length");
    reveal_strlit("lower");
    reveal_strlit("split");
    reveal_strlit("starts_with");
    reveal_strlit("throw");
    reveal_strlit("trim");
    reveal_strlit("try");
    reveal_strlit("upper");
    let x = ext_string_names();
    let y = error_handling_names();
    assert forall|i: int, j: int| 0 <= i < x.len() && 0 <= j < y.len() implies x[i] != y[j] by {
        lemma_names_differ(x[i], y[j]);
    }
}

proof fn lemma_ext_array_ext_object_disjoint()
    ensures
        disjoint(ext_array_names(), ext_object_names()),
{
    reveal_strlit("distinct");
    reveal_strlit("entries");
    reveal_strlit("group_by");
    reveal_strlit("keys");
    reveal_strlit("slice");
    reveal_strlit("sort");
    reveal_strlit("values");
    let x = ext_array_names();
    let y = ext_object_names();
    assert forall|i: int, j: int| 0 <= i < x.len() && 0 <= j < y.len() implies x[i] != y[j] by {
        lemma_names_differ(x[i], y[j]);
    }
}

proof fn lemma_ext_array_ext_control_disjoint()
    ensures
        disjoint(ext_array_names(), ext_control_names()),
{
    reveal_strlit("??");
    reveal_strlit("distinct");
    reveal_strlit("exists");
    reveal_strlit("group_by");
    reveal_strlit("match");
    reveal_strlit("slice");
    reveal_strlit("sort");
    reveal_strlit("switch");
    reveal_strlit("type");
    let x = ext_array_names();
    let y = ext_control_names();
    assert forall|i: int, j: int| 0 <= i < x.len() && 0 <= j < y.len() implies x[i] != y[j] by {
        lemma_names_differ(x[i], y[j]);
    }
}

proof fn lemma_ext_array_ext_math_disjoint()
    ensures
        disjoint(ext_array_names(), ext_math_names()),
{
    reveal_strlit("abs");
    reveal_strlit("ceil");
    reveal_strlit("distinct");
    reveal_strlit("floor");
    reveal_strlit("group_by");
    reveal_strlit("slice");
    reveal_strlit("sort");
    let x = ext_array_names();
    let y = ext_math_names();
    assert forall|i: int, j: int| 0 <= i < x.len() && 0 <= j < y.len() implies x[i] != y[j] by {
        lemma_names_differ(x[i], y[j]);
    }
}

proof fn lemma_ext_array_error_handling_disjoint()
    ensures
        disjoint(ext_array_names(), error_handling_names()),
{
    reveal_strlit("distinct");
    reveal_strlit("group_by");
    reveal_strlit("slice");
    reveal_strlit("sort");
    reveal_strlit("throw");
    reveal_strlit("try");
    let x = ext_array_names();
    let y = error_handling_names();
    assert forall|i: int, j: int| 0 <= i < x.len() && 0 <= j < y.len() implies x[i] != y[j] by {
        lemma_names_differ(x[i], y[j]);
    }
}

proof fn lemma_ext_object_ext_control_disjoint()
    ensures
        disjoint(ext_object_names(), ext_control_names()),
{
    reveal_strlit("??");
    reveal_strlit("entries");
    reveal_strlit("exists");
    reveal_strlit("keys");
    reveal_strlit("match");
    reveal_strlit("switch");
    reveal_strlit("type");
    reveal_strlit("values");
    let x = ext_object_names();
    let y = ext_control_names();
    assert forall|i: int, j: int| 0 <= i < x.len() && 0 <= j < y.len() implies x[i] != y[j] by {
        lemma_names_differ(x[i], y[j]);
    }
}

proof fn lemma_ext_object_ext_math_disjoint()
    ensures
        disjoint(ext_object_names(), ext_math_names()),
{
    reveal_strlit("abs");
    reveal_strlit("ceil");
    reveal_strlit("entries");
    reveal_strlit("floor");
    reveal_strlit("keys");
    reveal_strlit("values");
    let x = ext_object_names();
    let y = ext_math_names();
    assert forall|i: int, j: int| 0 <= i < x.len() && 0 <= j < y.len() implies x[i] != y[j] by {
        lemma_names_differ(x[i], y[j]);
    }
}

proof fn lemma_ext_object_error_handling_disjoint()
    ensures
        disjoint(ext_object_names(), error_handling_names()),
{
    reveal_strlit("entries");
    reveal_strlit("keys");
    reveal_strlit("throw");
    reveal_strlit("try");
    reveal_strlit("values");
    let x = ext_object_names();
    let y = error_handling_names();
    assert forall|i: int, j: int| 0 <= i < x.len() && 0 <= j < y.len() implies x[i] != y[j] by {
        lemma_names_differ(x[i], y[j]);
    }
}

proof fn lemma_ext_control_ext_math_disjoint()
    ensures
        disjoint(ext_control_names(), ext_math_names()),
{
    reveal_strlit("??");
    reveal_strlit("abs");
    reveal_strlit("ceil");
    reveal_strlit("exists");
    reveal_strlit("floor");
    reveal_strlit("match");
    reveal_strlit("switch");
    reveal_strlit("type");
    let x = ext_control_names();
    let y = ext_math_names();
    assert forall|i: int, j: int| 0 <= i < x.len() && 0 <= j < y.len() implies x[i] != y[j] by {
        lemma_names_differ(x[i], y[j]);
    }
}

proof fn lemma_ext_control_error_handling_disjoint()
    ensures
        disjoint(ext_control_names(), error_handling_names()),
{
    reveal_strlit("??");
    reveal_strlit("exists");
    reveal_strlit("match");
    reveal_strlit("switch");
    reveal_strlit("throw");
    reveal_strlit("try");
    reveal_strlit("type");
    let x = ext_control_names();
    let y = error_handling_names();
    assert forall|i: int, j: int| 0 <= i < x.len() && 0 <= j < y.len() implies x[i] != y[j] by {
        lemma_names_differ(x[i], y[j]);
    }
}

proof fn lemma_ext_math_error_handling_disjoint()
    ensures
        disjoint(ext_math_names(), error_handling_names()),
{
    reveal_strlit("abs");
    reveal_strlit("ceil");
    reveal_strlit("floor");
    reveal_strlit("throw");
    reveal_strlit("try");
    let x = ext_math_names();
    let y = error_handling_names();
    assert forall|i: int, j: int| 0 <= i < x.len() && 0 <= j < y.len() implies x[i] != y[j] by {
        lemma_names_differ(x[i], y[j]);
    }
}

proof fn lemma_families_distinct()
    ensures
        core_names().no_duplicates(),
        datetime_names().no_duplicates(),
        ext_string_names().no_duplicates(),
        ext_array_names().no_duplicates(),
        ext_object_names().no_duplicates(),
        ext_control_names().no_duplicates(),
        ext_math_names().no_duplicates(),
        error_handling_names().no_duplicates(),
        disjoint(core_names(), datetime_names()),
        disjoint(core_names(), ext_string_names()),
        disjoint(core_names(), ext_array_names()),
        disjoint(core_names(), ext_object_names()),
        disjoint(core_names(), ext_control_names()),
        disjoint(core_names(), ext_math_names()),
        disjoint(core_names(), error_handling_names()),
        disjoint(datetime_names(), ext_string_names()),
        disjoint(datetime_names(), ext_array_names()),
        disjoint(datetime_names(), ext_object_names()),
        disjoint(datetime_names(), ext_control_names()),
        disjoint(datetime_names(), ext_math_names()),
        disjoint(datetime_names(), error_handling_names()),
        disjoint(ext_string_names(), ext_array_names()),
        disjoint(ext_string_names(), ext_object_names()),
        disjoint(ext_string_names(), ext_control_names()),
        disjoint(ext_string_names(), ext_math_names()),
        disjoint(ext_string_names(), error_handling_names()),
        disjoint(ext_array_names(), ext_object_names()),
        disjoint(ext_array_names(), ext_control_names()),
        disjoint(ext_array_names(), ext_math_names()),
        disjoint(ext_array_names(), error_handling_names()),
        disjoint(ext_object_names(), ext_control_names()),
        disjoint(ext_object_names(), ext_math_names()),
        disjoint(ext_object_names(), error_handling_names()),
        disjoint(ext_control_names(), ext_math_names()),
        disjoint(ext_control_names(), error_handling_names()),
        disjoint(ext_math_names(), error_handling_names()),
{
    lemma_core_distinct();
    lemma_datetime_distinct();
    lemma_ext_string_distinct();
    lemma_ext_array_distinct();
    lemma_ext_object_distinct();
    lemma_ext_control_distinct();
    lemma_ext_math_distinct();
    lemma_error_handling_distinct();
    lemma_core_datetime_disjoint();
    lemma_core_ext_string_disjoint();
    lemma_core_ext_array_disjoint();
    lemma_core_ext_object_disjoint();
    lemma_core_ext_control_disjoint();
    lemma_core_ext_math_disjoint();
    lemma_core_error_handling_disjoint();
    lemma_datetime_ext_string_disjoint();
    lemma_datetime_ext_array_disjoint();
    lemma_datetime_ext_object_disjoint();
    lemma_datetime_ext_control_disjoint();
    lemma_datetime_ext_math_disjoint();
    lemma_datetime_error_handling_disjoint();
    lemma_ext_string_ext_array_disjoint();
    lemma_ext_string_ext_object_disjoint();
    lemma_ext_string_ext_control_disjoint();
    lemma_ext_string_ext_math_disjoint();
    lemma_ext_string_error_handling_disjoint();
    lemma_ext_array_ext_object_disjoint();
    lemma_ext_array_ext_control_disjoint();
    lemma_ext_array_ext_math_disjoint();
    lemma_ext_array_error_handling_disjoint();
    lemma_ext_object_ext_control_disjoint();
    lemma_ext_object_ext_math_disjoint();
    lemma_ext_object_error_handling_disjoint();
    lemma_ext_control_ext_math_disjoint();
    lemma_ext_control_error_handling_disjoint();
    lemma_ext_math_error_handling_disjoint();
}

proof fn lemma_disjoint_concat(a: Seq<Seq<char>>, b: Seq<Seq<char>>, c: Seq<Seq<char>>)
    requires
        disjoint(a, c),
        disjoint(b, c),
    ensures
        disjoint(a + b, c),
{
    assert forall|i: int, j: int| 0 <= i < (a + b).len() && 0 <= j < c.len() implies (a + b)[i]
        != c[j] by {
        if i < a.len() {
            assert((a + b)[i] == a[i]);
        } else {
            assert((a + b)[i] == b[i - a.len()]);
        }
    }
}

proof fn lemma_when(enabled: bool, a: Seq<Seq<char>>, b: Seq<Seq<char>>)
    requires
        a.no_duplicates(),
        disjoint(b, a),
    ensures
        if_enabled(enabled, a).no_duplicates(),
        disjoint(b, if_enabled(enabled, a)),
{
}

/// No operator name is listed twice, whichever families a build enables:
/// each name belongs to exactly one family.
pub proof fn lemma_no_name_is_listed_twice(f: OperatorFamilies)
    ensures
        operator_names(f).no_duplicates(),
{
    lemma_families_distinct();
    let w_datetime = if_enabled(f.datetime, datetime_names());
    lemma_when(f.datetime, datetime_names(), core_names());
    assert(disjoint(core_names(), w_datetime)) by { lemma_when(f.datetime, datetime_names(), core_names()); }
    vstd::seq_lib::lemma_no_dup_in_concat(core_names(), w_datetime);
    let w_ext_string = if_enabled(f.ext_string, ext_string_names());
    lemma_when(f.ext_string, ext_string_names(), core_names());
    assert(disjoint(core_names(), w_ext_string)) by { lemma_when(f.ext_string, ext_string_names(), core_names()); }
    assert(disjoint(w_datetime, w_ext_string)) by { if f.datetime { lemma_when(f.ext_string, ext_string_names(), datetime_names()); } }
    lemma_disjoint_concat(core_names(), w_datetime, w_ext_string);
    vstd::seq_lib::lemma_no_dup_in_concat(core_names() + w_datetime, w_ext_string);
    let w_ext_array = if_enabled(f.ext_array, ext_array_names());
    lemma_when(f.ext_array, ext_array_names(), core_names());
    assert(disjoint(core_names(), w_ext_array)) by { lemma_when(f.ext_array, ext_array_names(), core_names()); }
    assert(disjoint(w_datetime, w_ext_array)) by { if f.datetime { lemma_when(f.ext_array, ext_array_names(), datetime_names()); } }
    assert(disjoint(w_ext_string, w_ext_array)) by { if f.ext_string { lemma_when(f.ext_array, ext_array_names(), ext_string_names()); } }
    lemma_disjoint_concat(core_names(), w_datetime, w_ext_array);
    lemma_disjoint_concat(core_names() + w_datetime, w_ext_string, w_ext_array);
    vstd::seq_lib::lemma_no_dup_in_concat(core_names() + w_datetime + w_ext_string, w_ext_array);
    let w_ext_object = if_enabled(f.ext_object, ext_object_names());
    lemma_when(f.ext_object, ext_object_names(), core_names());
    assert(disjoint(core_names(), w_ext_object)) by { lemma_when(f.ext_object, ext_object_names(), core_names()); }
    assert(disjoint(w_datetime, w_ext_object)) by { if f.datetime { lemma_when(f.ext_object, ext_object_names(), datetime_names()); } }
    assert(disjoint(w_ext_string, w_ext_object)) by { if f.ext_string { lemma_when(f.ext_object, ext_object_names(), ext_string_names()); } }
    assert(disjoint(w_ext_array, w_ext_object)) by { if f.ext_array { lemma_when(f.ext_object, ext_object_names(), ext_array_names()); } }
    lemma_disjoint_concat(core_names(), w_datetime, w_ext_object);
    lemma_disjoint_concat(core_names() + w_datetime, w_ext_string, w_ext_object);
    lemma_disjoint_concat(core_names() + w_datetime + w_ext_string, w_ext_array, w_ext_object);
    vstd::seq_lib::lemma_no_dup_in_concat(core_names() + w_datetime + w_ext_string + w_ext_array, w_ext_object);
    let w_ext_control = if_enabled(f.ext_control, ext_control_names());
    lemma_when(f.ext_control, ext_control_names(), core_names());
    assert(disjoint(core_names(), w_ext_control)) by { lemma_when(f.ext_control, ext_control_names(), core_names()); }
    assert(disjoint(w_datetime, w_ext_control)) by { if f.datetime { lemma_when(f.ext_control, ext_control_names(), datetime_names()); } }
    assert(disjoint(w_ext_string, w_ext_control)) by { if f.ext_string { lemma_when(f.ext_control, ext_control_names(), ext_string_names()); } }
    assert(disjoint(w_ext_array, w_ext_control)) by { if f.ext_array { lemma_when(f.ext_control, ext_control_names(), ext_array_names()); } }
    assert(disjoint(w_ext_object, w_ext_control)) by { if f.ext_object { lemma_when(f.ext_control, ext_control_names(), ext_object_names()); } }
    lemma_disjoint_concat(core_names(), w_datetime, w_ext_control);
    lemma_disjoint_concat(core_names() + w_datetime, w_ext_string, w_ext_control);
    lemma_disjoint_concat(core_names() + w_datetime + w_ext_string, w_ext_array, w_ext_control);
    lemma_disjoint_concat(core_names() + w_datetime + w_ext_string + w_ext_array, w_ext_object, w_ext_control);
    vstd::seq_lib::lemma_no_dup_in_concat(core_names() + w_datetime + w_ext_string + w_ext_array + w_ext_object, w_ext_control);
    let w_ext_math = if_enabled(f.ext_math, ext_math_names());
    lemma_when(f.ext_math, ext_math_names(), core_names());
    assert(disjoint(core_names(), w_ext_math)) by { lemma_when(f.ext_math, ext_math_names(), core_names()); }
    assert(disjoint(w_datetime, w_ext_math)) by { if f.datetime { lemma_when(f.ext_math, ext_math_names(), datetime_names()); } }
    assert(disjoint(w_ext_string, w_ext_math)) by { if f.ext_string { lemma_when(f.ext_math, ext_math_names(), ext_string_names()); } }
    assert(disjoint(w_ext_array, w_ext_math)) by { if f.ext_array { lemma_when(f.ext_math, ext_math_names(), ext_array_names()); } }
    assert(disjoint(w_ext_object, w_ext_math)) by { if f.ext_object { lemma_when(f.ext_math, ext_math_names(), ext_object_names()); } }
    assert(disjoint(w_ext_control, w_ext_math)) by { if f.ext_control { lemma_when(f.ext_math, ext_math_names(), ext_control_names()); } }
    lemma_disjoint_concat(core_names(), w_datetime, w_ext_math);
    lemma_disjoint_concat(core_names() + w_datetime, w_ext_string, w_ext_math);
    lemma_disjoint_concat(core_names() + w_datetime + w_ext_string, w_ext_array, w_ext_math);
    lemma_disjoint_concat(core_names() + w_datetime + w_ext_string + w_ext_array, w_ext_object, w_ext_math);
    lemma_disjoint_concat(core_names() + w_datetime + w_ext_string + w_ext_array + w_ext_object, w_ext_control, w_ext_math);
    vstd::seq_lib::lemma_no_dup_in_concat(core_names() + w_datetime + w_ext_string + w_ext_array + w_ext_object + w_ext_control, w_ext_math);
    let w_error_handling = if_enabled(f.error_handling, error_handling_names());
    lemma_when(f.error_handling, error_handling_names(), core_names());
    assert(disjoint(core_names(), w_error_handling)) by { lemma_when(f.error_handling, error_handling_names(), core_names()); }
    assert(disjoint(w_datetime, w_error_handling)) by { if f.datetime { lemma_when(f.error_handling, error_handling_names(), datetime_names()); } }
    assert(disjoint(w_ext_string, w_error_handling)) by { if f.ext_string { lemma_when(f.error_handling, error_handling_names(), ext_string_names()); } }
    assert(disjoint(w_ext_array, w_error_handling)) by { if f.ext_array { lemma_when(f.error_handling, error_handling_names(), ext_array_names()); } }
    assert(disjoint(w_ext_object, w_error_handling)) by { if f.ext_object { lemma_when(f.error_handling, error_handling_names(), ext_object_names()); } }
    assert(disjoint(w_ext_control, w_error_handling)) by { if f.ext_control { lemma_when(f.error_handling, error_handling_names(), ext_control_names()); } }
    assert(disjoint(w_ext_math, w_error_handling)) by { if f.ext_math { lemma_when(f.error_handling, error_handling_names(), ext_math_names()); } }
    lemma_disjoint_concat(core_names(), w_datetime, w_error_handling);
    lemma_disjoint_concat(core_names() + w_datetime, w_ext_string, w_error_handling);
    lemma_disjoint_concat(core_names() + w_datetime + w_ext_string, w_ext_array, w_error_handling);
    lemma_disjoint_concat(core_names() + w_datetime + w_ext_string + w_ext_array, w_ext_object, w_error_handling);
    lemma_disjoint_concat(core_names() + w_datetime + w_ext_string + w_ext_array + w_ext_object, w_ext_control, w_error_handling);
    lemma_disjoint_concat(core_names() + w_datetime + w_ext_string + w_ext_array + w_ext_object + w_ext_control, w_ext_math, w_error_handling);
    vstd::seq_lib::lemma_no_dup_in_concat(core_names() + w_datetime + w_ext_string + w_ext_array + w_ext_object + w_ext_control + w_ext_math, w_error_handling);
    assert(operator_names(f) =~= core_names() + w_datetime + w_ext_string + w_ext_array + w_ext_object + w_ext_control + w_ext_math + w_error_handling);
}

} // verus!

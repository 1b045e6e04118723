//! Every JSONLogic expression of a workflow definition, with where it lives
//! and where its result goes.
//!
//! The single enumeration of which config fields are expressions. The secret
//! check and the template-key check both walk it, so a parameter cannot be
//! checked by one and silently skipped by the other.
//!
//! The walk reads the authored document. A field that is absent takes a
//! constant default, which reads no secret and has no keys; of those only a
//! condition is visited when absent, as the `true` it defaults to.

use vstd::prelude::*;
use crate::json::{Json, lookup};
use crate::order::{name_order, names_in_order, names_view};
use crate::secrets::entry_keys;
use crate::steps::{AuthoredStep, StepKind, StepView, authored_walk, element_path, steps_view, walk_authored_steps};
use crate::text::{owned, push_decimal, push_str, str_eq};

verus! {

/// Where an expression's result ends up, which decides whether it may read a
/// secret.
#[derive(Debug, Clone, Copy, PartialEq, Eq, Structural)]
pub enum Sink {
    /// Collapses to a bool the engine acts on: conditions, validation rules,
    /// filters. Nothing of the value survives.
    Bool,
    /// Handed to a handler: every `http_call`, `enrich` and `publish_kafka`
    /// parameter.
    Handler,
    /// A custom task's whole raw input, handed to the handler untyped. An
    /// issue carries the deep path to a reference rather than the field.
    Input,
    /// Written to the message or emitted to a log by the engine itself, and
    /// so recorded.
    Message,
}

impl Sink {
    /// Whether the engine itself records this expression's result. Such an
    /// expression may not read a secret at all.
    pub fn records(self) -> (r: bool)
        ensures
            r == (self == Sink::Message),
    {
        match self {
            Sink::Message => true,
            _ => false,
        }
    }

    /// Whether an issue points at the reference's own deep path rather than
    /// at the field: only where the field is not itself one expression.
    pub fn points_at_reference(self) -> (r: bool)
        ensures
            r == (self == Sink::Input),
    {
        match self {
            Sink::Input => true,
            _ => false,
        }
    }
}

/// One expression of a workflow.
#[derive(Debug)]
pub struct Expression<'a> {
    /// The expression itself.
    pub value: &'a Json,
    /// The config field it sits in, such as `function.input.mappings[0].logic`.
    pub field: String,
    /// The step it belongs to; `None` for the workflow's own condition.
    pub task_id: Option<&'a str>,
    /// Where its result goes.
    pub sink: Sink,
}

/// An expression as plain values: value, field, step id, sink.
pub type ExprView = (Json, Seq<char>, Option<Seq<char>>, Sink);

/// The view of an optional string slice.
pub open spec fn opt_str(s: Option<&str>) -> Option<Seq<char>> {
    match s {
        Some(t) => Some(t@),
        None => None,
    }
}

impl<'a> Expression<'a> {
    pub open spec fn view_expr(self) -> ExprView {
        (*self.value, self.field@, opt_str(self.task_id), self.sink)
    }
}

/// The views of a list of expressions.
pub open spec fn exprs_view<'a>(es: Seq<Expression<'a>>) -> Seq<ExprView> {
    es.map_values(|e: Expression<'a>| e.view_expr())
}

/// One expression when the field is present, none otherwise.
pub open spec fn present(value: Option<Json>, field: Seq<char>, id: Option<Seq<char>>, sink: Sink) -> Seq<
    ExprView,
> {
    match value {
        Some(v) => seq![(v, field, id, sink)],
        None => Seq::empty(),
    }
}

/// A condition as it is read: the authored one, or `true` when none is
/// authored.
pub open spec fn condition_of(value: Option<Json>) -> Json {
    match value {
        Some(v) => v,
        None => Json::Bool(true),
    }
}

/// The one expression of a condition, authored or defaulted to `true`.
pub open spec fn condition_expr(value: Option<Json>, id: Option<Seq<char>>) -> Seq<ExprView> {
    seq![(condition_of(value), "condition"@, id, Sink::Bool)]
}

/// A field that may be spelled two ways; the first spelling wins.
pub open spec fn either(input: Json, key: Seq<char>, alias: Seq<char>) -> Option<Json> {
    match input.field(key) {
        Some(v) => Some(v),
        None => input.field(alias),
    }
}

/// The items of the array under `key`, none when it is not an array.
pub open spec fn items_at(input: Json, key: Seq<char>) -> Seq<Json> {
    match input.field(key) {
        Some(v) => match v.items() {
            Some(items) => items,
            None => Seq::empty(),
        },
        None => Seq::empty(),
    }
}

/// The two expressions of each element of `items`: `first` and `second`,
/// under `prefix[i]`.
pub open spec fn pair_exprs(
    items: Seq<Json>,
    prefix: Seq<char>,
    first: Seq<char>,
    first_sink: Sink,
    second: Seq<char>,
    second_sink: Sink,
    id: Option<Seq<char>>,
) -> Seq<ExprView>
    decreases items.len(),
{
    if items.len() == 0 {
        Seq::empty()
    } else {
        let i = (items.len() - 1) as nat;
        let at = element_path(prefix, i);
        let item = items[i as int];
        pair_exprs(items.drop_last(), prefix, first, first_sink, second, second_sink, id)
            + present(item.field(first), at + seq!['.'] + first, id, first_sink) + present(
            item.field(second),
            at + seq!['.'] + second,
            id,
            second_sink,
        )
    }
}

/// The entries of the object under `key`, none when it is not an object.
pub open spec fn entries_at(input: Json, key: Seq<char>) -> Seq<(String, Json)> {
    match input.field(key) {
        Some(Json::Object(entries)) => entries@,
        _ => Seq::empty(),
    }
}

/// The values of `entries` under `names`, in that order, each at
/// `prefix` and its name.
pub open spec fn named_exprs(
    entries: Seq<(String, Json)>,
    names: Seq<Seq<char>>,
    prefix: Seq<char>,
    id: Option<Seq<char>>,
    sink: Sink,
) -> Seq<ExprView>
    decreases names.len(),
{
    if names.len() == 0 {
        Seq::empty()
    } else {
        named_exprs(entries, names.drop_last(), prefix, id, sink) + present(
            lookup(entries, names.last()),
            prefix + names.last(),
            id,
            sink,
        )
    }
}

/// The values of a map-valued field, in name order.
pub open spec fn map_field_exprs(input: Json, key: Seq<char>, prefix: Seq<char>, id: Option<Seq<char>>, sink: Sink) -> Seq<
    ExprView,
> {
    let entries = entries_at(input, key);
    named_exprs(entries, entry_keys(entries).sort_by(name_order()), prefix, id, sink)
}

/// `function.input.` and a field name.
pub open spec fn input_field(name: Seq<char>) -> Seq<char> {
    "function.input."@ + name
}

/// The expressions of an `http_call` input.
pub open spec fn http_call_exprs(input: Json, id: Option<Seq<char>>) -> Seq<ExprView> {
    let h = Sink::Handler;
    present(input.field("connector"@), input_field("connector"@), id, h) + present(
        input.field("timeout_ms"@),
        input_field("timeout_ms"@),
        id,
        h,
    ) + map_field_exprs(input, "headers"@, "function.input.headers."@, id, h) + present(
        either(input, "path"@, "path_logic"@),
        input_field("path"@),
        id,
        h,
    ) + present(either(input, "body"@, "body_logic"@), input_field("body"@), id, h) + present(
        input.field("body_format"@),
        input_field("body_format"@),
        id,
        h,
    ) + present(
        either(input, "response_path"@, "output"@),
        input_field("response_path"@),
        id,
        h,
    ) + present(input.field("response_format"@), input_field("response_format"@), id, h)
}

/// The expressions of an `enrich` input.
pub open spec fn enrich_exprs(input: Json, id: Option<Seq<char>>) -> Seq<ExprView> {
    let h = Sink::Handler;
    present(input.field("connector"@), input_field("connector"@), id, h) + present(
        input.field("merge_path"@),
        input_field("merge_path"@),
        id,
        h,
    ) + present(input.field("timeout_ms"@), input_field("timeout_ms"@), id, h) + present(
        either(input, "path"@, "path_logic"@),
        input_field("path"@),
        id,
        h,
    )
}

/// The expressions of a `publish_kafka` input.
pub open spec fn kafka_exprs(input: Json, id: Option<Seq<char>>) -> Seq<ExprView> {
    let h = Sink::Handler;
    present(input.field("connector"@), input_field("connector"@), id, h) + present(
        input.field("topic"@),
        input_field("topic"@),
        id,
        h,
    ) + present(either(input, "key"@, "key_logic"@), input_field("key"@), id, h) + present(
        either(input, "value"@, "value_logic"@),
        input_field("value"@),
        id,
        h,
    )
}

/// The expressions of a `parse_*` input: where it reads and writes.
pub open spec fn parse_exprs(input: Json, id: Option<Seq<char>>) -> Seq<ExprView> {
    present(input.field("source"@), input_field("source"@), id, Sink::Message) + present(
        input.field("target"@),
        input_field("target"@),
        id,
        Sink::Message,
    )
}

/// The expressions of a `publish_*` input: where it reads and writes, and the
/// root element it writes into the document.
pub open spec fn publish_exprs(input: Json, id: Option<Seq<char>>) -> Seq<ExprView> {
    parse_exprs(input, id) + present(
        input.field("root_element"@),
        input_field("root_element"@),
        id,
        Sink::Message,
    )
}

/// The expressions of a task's `function`, by its name.
pub open spec fn function_exprs(function: Json, id: Option<Seq<char>>) -> Seq<ExprView> {
    let input = match function.field("input"@) {
        Some(v) => v,
        None => Json::Null,
    };
    match function.field("name"@) {
        Some(Json::Str(name)) => {
            let n = name@;
            if n == "map"@ {
                pair_exprs(
                    items_at(input, "mappings"@),
                    "function.input.mappings"@,
                    "logic"@,
                    Sink::Message,
                    "path"@,
                    Sink::Message,
                    id,
                )
            } else if n == "validate"@ || n == "validation"@ {
                pair_exprs(
                    items_at(input, "rules"@),
                    "function.input.rules"@,
                    "logic"@,
                    Sink::Bool,
                    "message"@,
                    Sink::Message,
                    id,
                )
            } else if n == "filter"@ {
                present(input.field("condition"@), input_field("condition"@), id, Sink::Bool)
            } else if n == "log"@ {
                present(input.field("message"@), input_field("message"@), id, Sink::Message)
                    + map_field_exprs(input, "fields"@, "function.input.fields."@, id, Sink::Message)
            } else if n == "http_call"@ {
                http_call_exprs(input, id)
            } else if n == "enrich"@ {
                enrich_exprs(input, id)
            } else if n == "publish_kafka"@ {
                kafka_exprs(input, id)
            } else if n == "parse_json"@ || n == "parse_xml"@ {
                parse_exprs(input, id)
            } else if n == "publish_json"@ || n == "publish_xml"@ {
                publish_exprs(input, id)
            } else {
                present(function.field("input"@), "function.input"@, id, Sink::Input)
            }
        },
        _ => Seq::empty(),
    }
}

/// The id a step carries, when it is a string.
pub open spec fn step_id_text(node: Json) -> Option<Seq<char>> {
    match node.field("id"@) {
        Some(v) => v.str_of(),
        None => None,
    }
}

/// The expressions of one step of the walk: a group's condition; a task's
/// condition and its function's expressions.
pub open spec fn step_exprs(step: StepView) -> Seq<ExprView> {
    let node = step.1;
    let id = step_id_text(node);
    match step.2 {
        StepKind::Group => condition_expr(node.field("condition"@), id),
        StepKind::Leaf => condition_expr(node.field("condition"@), id) + match node.field(
            "function"@,
        ) {
            Some(f) => function_exprs(f, id),
            None => Seq::empty(),
        },
        StepKind::TooDeep => Seq::empty(),
    }
}

/// The expressions of the first `k` steps of a walk.
pub open spec fn steps_exprs(steps: Seq<StepView>, k: int) -> Seq<ExprView>
    decreases k,
{
    if k <= 0 {
        Seq::empty()
    } else {
        steps_exprs(steps, k - 1) + step_exprs(steps[k - 1])
    }
}

/// Every expression of an authored workflow, in visiting order: the
/// workflow's condition, then each step of the walk in pre-order.
pub open spec fn workflow_exprs(workflow: Json) -> Seq<ExprView> {
    let tasks = match workflow.field("tasks"@) {
        Some(t) => t,
        None => Json::Null,
    };
    let steps = authored_walk(tasks);
    condition_expr(workflow.field("condition"@), None) + steps_exprs(
        steps,
        steps.len() as int,
    )
}

/// The view of an optional borrowed value.
pub open spec fn opt_json(v: Option<&Json>) -> Option<Json> {
    match v {
        Some(x) => Some(*x),
        None => None,
    }
}

proof fn lemma_exprs_view_push<'a>(es: Seq<Expression<'a>>, e: Expression<'a>)
    ensures
        exprs_view(es.push(e)) == exprs_view(es).push(e.view_expr()),
{
    assert(exprs_view(es.push(e)) =~= exprs_view(es).push(e.view_expr()));
}

/// Append the expression at `field` when it is present.
fn push_present<'a>(
    out: &mut Vec<Expression<'a>>,
    value: Option<&'a Json>,
    field: String,
    id: Option<&'a str>,
    sink: Sink,
)
    ensures
        exprs_view(final(out)@) == exprs_view(old(out)@) + present(
            opt_json(value),
            field@,
            opt_str(id),
            sink,
        ),
{
    match value {
        Some(v) => {
            let ghost before = out@;
            let e = Expression { value: v, field, task_id: id, sink };
            out.push(e);
            proof {
                lemma_exprs_view_push(before, e);
            }
            assert(exprs_view(out@) =~= exprs_view(before) + present(
                opt_json(value),
                field@,
                opt_str(id),
                sink,
            ));
        },
        None => {
            assert(exprs_view(out@) =~= exprs_view(out@) + present(
                opt_json(value),
                field@,
                opt_str(id),
                sink,
            ));
        },
    }
}

/// Push a step's or the workflow's condition: the authored one, or `true`.
fn push_condition<'a>(out: &mut Vec<Expression<'a>>, value: Option<&'a Json>, id: Option<&'a str>)
    ensures
        exprs_view(final(out)@) == exprs_view(old(out)@) + condition_expr(opt_json(value), opt_str(id)),
{
    let v: &'a Json = match value {
        Some(v) => v,
        None => &Json::Bool(true),
    };
    let ghost before = out@;
    let e = Expression { value: v, field: owned("condition"), task_id: id, sink: Sink::Bool };
    out.push(e);
    proof {
        lemma_exprs_view_push(before, e);
        reveal_strlit("condition");
    }
    assert(exprs_view(out@) =~= exprs_view(before) + condition_expr(opt_json(value), opt_str(id)));
}

/// `function.input.` and `name`.
fn field_label(name: &str) -> (r: String)
    ensures
        r@ == input_field(name@),
{
    let mut s = owned("function.input.");
    push_str(&mut s, name);
    s
}

/// `prefix` and `name`.
fn joined(prefix: &str, name: &str) -> (r: String)
    ensures
        r@ == prefix@ + name@,
{
    let mut s = owned(prefix);
    push_str(&mut s, name);
    s
}

/// The field under `key`, or else under `alias`.
fn either_get<'a>(input: &'a Json, key: &str, alias: &str) -> (r: Option<&'a Json>)
    ensures
        opt_json(r) == either(*input, key@, alias@),
{
    match input.get(key) {
        Some(v) => Some(v),
        None => input.get(alias),
    }
}

/// Append the expression at `function.input.<key>` when it is present.
fn push_input_field<'a>(out: &mut Vec<Expression<'a>>, input: &'a Json, key: &str, id: Option<&'a str>, sink: Sink)
    ensures
        exprs_view(final(out)@) == exprs_view(old(out)@) + present(
            input.field(key@),
            input_field(key@),
            opt_str(id),
            sink,
        ),
{
    let v = input.get(key);
    assert(opt_json(v) == input.field(key@));
    push_present(out, v, field_label(key), id, sink);
}

/// Append the expression spelled `key` or `alias`, at `function.input.<key>`.
fn push_either_field<'a>(
    out: &mut Vec<Expression<'a>>,
    input: &'a Json,
    key: &str,
    alias: &str,
    id: Option<&'a str>,
    sink: Sink,
)
    ensures
        exprs_view(final(out)@) == exprs_view(old(out)@) + present(
            either(*input, key@, alias@),
            input_field(key@),
            opt_str(id),
            sink,
        ),
{
    let v = either_get(input, key, alias);
    push_present(out, v, field_label(key), id, sink);
}

/// `prefix[i].name`.
fn item_label(prefix: &str, i: usize, name: &str) -> (r: String)
    ensures
        r@ == element_path(prefix@, i as nat) + seq!['.'] + name@,
{
    let mut s = owned(prefix);
    push_str(&mut s, "[");
    push_decimal(&mut s, i as u64);
    push_str(&mut s, "].");
    push_str(&mut s, name);
    proof {
        reveal_strlit("[");
        reveal_strlit("].");
    }
    assert(s@ =~= element_path(prefix@, i as nat) + seq!['.'] + name@);
    s
}

/// Append the two expressions of every element of `items`.
fn push_pair_exprs<'a>(
    out: &mut Vec<Expression<'a>>,
    items: &'a Vec<Json>,
    prefix: &str,
    first: &str,
    first_sink: Sink,
    second: &str,
    second_sink: Sink,
    id: Option<&'a str>,
)
    ensures
        exprs_view(final(out)@) == exprs_view(old(out)@) + pair_exprs(
            items@,
            prefix@,
            first@,
            first_sink,
            second@,
            second_sink,
            opt_str(id),
        ),
{
    let ghost start = exprs_view(out@);
    let ghost p = prefix@;
    let ghost f = first@;
    let ghost g = second@;
    let ghost i_d = opt_str(id);
    let mut k: usize = 0;
    assert(items@.take(0) =~= Seq::<Json>::empty());
    assert(start + pair_exprs(items@.take(0), p, f, first_sink, g, second_sink, i_d) =~= start);
    while k < items.len()
        invariant
            k <= items@.len(),
            p == prefix@,
            f == first@,
            g == second@,
            i_d == opt_str(id),
            exprs_view(out@) == start + pair_exprs(
                items@.take(k as int),
                p,
                f,
                first_sink,
                g,
                second_sink,
                i_d,
            ),
        decreases items@.len() - k,
    {
        let item: &'a Json = &items[k];
        let ghost at = element_path(p, k as nat);
        let ghost mid = exprs_view(out@);
        let v1 = item.get(first);
        assert(opt_json(v1) == item.field(f));
        push_present(out, v1, item_label(prefix, k, first), id, first_sink);
        let v2 = item.get(second);
        assert(opt_json(v2) == item.field(g));
        push_present(out, v2, item_label(prefix, k, second), id, second_sink);
        let ghost next = items@.take(k + 1);
        assert(next.drop_last() =~= items@.take(k as int));
        assert(next.last() == *item);
        assert(pair_exprs(next, p, f, first_sink, g, second_sink, i_d) == pair_exprs(
            items@.take(k as int),
            p,
            f,
            first_sink,
            g,
            second_sink,
            i_d,
        ) + present(item.field(f), at + seq!['.'] + f, i_d, first_sink) + present(
            item.field(g),
            at + seq!['.'] + g,
            i_d,
            second_sink,
        ));
        assert(exprs_view(out@) =~= start + pair_exprs(next, p, f, first_sink, g, second_sink, i_d));
        k = k + 1;
    }
    assert(items@.take(items@.len() as int) =~= items@);
}

/// Append the values of `entries` in name order, each at `prefix` and its
/// name.
fn push_named_exprs<'a>(
    out: &mut Vec<Expression<'a>>,
    entries: &'a Vec<(String, Json)>,
    prefix: &str,
    id: Option<&'a str>,
    sink: Sink,
)
    ensures
        exprs_view(final(out)@) == exprs_view(old(out)@) + named_exprs(
            entries@,
            entry_keys(entries@).sort_by(name_order()),
            prefix@,
            opt_str(id),
            sink,
        ),
{
    let names = names_in_order(entries);
    let ghost sorted = names_view(names@);
    let ghost start = exprs_view(out@);
    let ghost i_d = opt_str(id);
    let mut k: usize = 0;
    assert(sorted.take(0) =~= Seq::<Seq<char>>::empty());
    assert(start + named_exprs(entries@, sorted.take(0), prefix@, i_d, sink) =~= start);
    while k < names.len()
        invariant
            k <= names@.len(),
            sorted == names_view(names@),
            i_d == opt_str(id),
            exprs_view(out@) == start + named_exprs(entries@, sorted.take(k as int), prefix@, i_d, sink),
        decreases names@.len() - k,
    {
        let name: &String = names[k];
        let v = crate::json::lookup_entry(entries, name.as_str());
        assert(opt_json(v) == lookup(entries@, name@));
        push_present(out, v, joined(prefix, name.as_str()), id, sink);
        let ghost next = sorted.take(k + 1);
        assert(next.drop_last() =~= sorted.take(k as int));
        assert(next.last() == name@);
        assert(exprs_view(out@) =~= start + named_exprs(entries@, next, prefix@, i_d, sink));
        k = k + 1;
    }
    assert(sorted.take(names@.len() as int) =~= sorted);
}

proof fn lemma_map_field_absent(input: Json, key: Seq<char>, prefix: Seq<char>, id: Option<Seq<char>>, sink: Sink)
    requires
        !(input.field(key) matches Some(Json::Object(_))),
    ensures
        map_field_exprs(input, key, prefix, id, sink) == Seq::<ExprView>::empty(),
{
    let none = Seq::<(String, Json)>::empty();
    assert(entries_at(input, key) == none);
    crate::order::lemma_name_order_total();
    entry_keys(none).lemma_sort_by_ensures(name_order());
    assert(entry_keys(none) =~= Seq::<Seq<char>>::empty());
    let sorted = entry_keys(none).sort_by(name_order());
    vstd::seq_lib::to_multiset_len(sorted);
    vstd::seq_lib::to_multiset_len(entry_keys(none));
    assert(sorted.len() == 0);
}

/// Append the values of the map-valued field `key`, in name order.
fn push_map_field<'a>(
    out: &mut Vec<Expression<'a>>,
    input: &'a Json,
    key: &str,
    prefix: &str,
    id: Option<&'a str>,
    sink: Sink,
)
    ensures
        exprs_view(final(out)@) == exprs_view(old(out)@) + map_field_exprs(
            *input,
            key@,
            prefix@,
            opt_str(id),
            sink,
        ),
{
    match input.get(key) {
        Some(Json::Object(entries)) => {
            push_named_exprs(out, entries, prefix, id, sink);
        },
        _ => {
            proof {
                lemma_map_field_absent(*input, key@, prefix@, opt_str(id), sink);
            }
            assert(exprs_view(out@) =~= exprs_view(out@) + map_field_exprs(
                *input,
                key@,
                prefix@,
                opt_str(id),
                sink,
            ));
        },
    }
}

/// Append the expressions of a task's `function`.
fn push_function_exprs<'a>(out: &mut Vec<Expression<'a>>, function: &'a Json, id: Option<&'a str>)
    ensures
        exprs_view(final(out)@) == exprs_view(old(out)@) + function_exprs(*function, opt_str(id)),
{
    let ghost start = exprs_view(out@);
    let ghost i_d = opt_str(id);
    let name = match function.get("name") {
        Some(Json::Str(n)) => n.as_str(),
        _ => {
            assert(function_exprs(*function, i_d) =~= Seq::<ExprView>::empty());
            assert(exprs_view(out@) =~= start + function_exprs(*function, i_d));
            return ;
        },
    };
    let raw_input = function.get("input");
    let input: &'a Json = match raw_input {
        Some(v) => v,
        None => {
            proof {
                lemma_map_field_absent(Json::Null, "fields"@, "function.input.fields."@, i_d, Sink::Message);
                lemma_map_field_absent(Json::Null, "headers"@, "function.input.headers."@, i_d, Sink::Handler);
                assert(items_at(Json::Null, "mappings"@) =~= Seq::<Json>::empty());
                assert(items_at(Json::Null, "rules"@) =~= Seq::<Json>::empty());
                assert(pair_exprs(Seq::<Json>::empty(), "function.input.mappings"@, "logic"@, Sink::Message, "path"@, Sink::Message, i_d) =~= Seq::<ExprView>::empty());
                assert(pair_exprs(Seq::<Json>::empty(), "function.input.rules"@, "logic"@, Sink::Bool, "message"@, Sink::Message, i_d) =~= Seq::<ExprView>::empty());
            }
            assert(function_exprs(*function, i_d) =~= Seq::<ExprView>::empty());
            assert(exprs_view(out@) =~= start + function_exprs(*function, i_d));
            return ;
        },
    };
    if str_eq(name, "map") || str_eq(name, "validate") || str_eq(name, "validation") {
        let is_map = str_eq(name, "map");
        match input.get(if is_map { "mappings" } else { "rules" }) {
            Some(Json::Array(items)) => {
                if is_map {
                    push_pair_exprs(out, items, "function.input.mappings", "logic", Sink::Message, "path", Sink::Message, id);
                } else {
                    push_pair_exprs(out, items, "function.input.rules", "logic", Sink::Bool, "message", Sink::Message, id);
                }
            },
            _ => {
                assert(pair_exprs(Seq::<Json>::empty(), "function.input.mappings"@, "logic"@, Sink::Message, "path"@, Sink::Message, i_d) =~= Seq::<ExprView>::empty());
                assert(pair_exprs(Seq::<Json>::empty(), "function.input.rules"@, "logic"@, Sink::Bool, "message"@, Sink::Message, i_d) =~= Seq::<ExprView>::empty());
                assert(exprs_view(out@) =~= start + function_exprs(*function, i_d));
            },
        }
        return ;
    }
    assert(!(name@ == "map"@ || name@ == "validate"@ || name@ == "validation"@));
    let ghost n = name@;
    if str_eq(name, "filter") {
        push_input_field(out, input, "condition", id, Sink::Bool);
    } else if str_eq(name, "log") {
        push_log_exprs(out, input, id);
    } else if str_eq(name, "http_call") {
        push_http_call_exprs(out, input, id);
    } else if str_eq(name, "enrich") {
        push_enrich_exprs(out, input, id);
    } else if str_eq(name, "publish_kafka") {
        push_kafka_exprs(out, input, id);
    } else if str_eq(name, "parse_json") || str_eq(name, "parse_xml") {
        push_parse_exprs(out, input, id);
    } else if str_eq(name, "publish_json") || str_eq(name, "publish_xml") {
        push_publish_exprs(out, input, id);
    } else {
        push_present(out, raw_input, owned("function.input"), id, Sink::Input);
    }
    assert(exprs_view(out@) =~= start + function_exprs(*function, i_d));
}

/// Append the expressions of a `log` input.
fn push_log_exprs<'a>(out: &mut Vec<Expression<'a>>, input: &'a Json, id: Option<&'a str>)
    ensures
        exprs_view(final(out)@) == exprs_view(old(out)@) + (present(
            input.field("message"@),
            input_field("message"@),
            opt_str(id),
            Sink::Message,
        ) + map_field_exprs(*input, "fields"@, "function.input.fields."@, opt_str(id), Sink::Message)),
{
    let ghost start = exprs_view(out@);
    push_input_field(out, input, "message", id, Sink::Message);
    push_map_field(out, input, "fields", "function.input.fields.", id, Sink::Message);
    assert(exprs_view(out@) =~= start + (present(
        input.field("message"@),
        input_field("message"@),
        opt_str(id),
        Sink::Message,
    ) + map_field_exprs(*input, "fields"@, "function.input.fields."@, opt_str(id), Sink::Message)));
}

/// Append the expressions of an `http_call` input.
fn push_http_call_exprs<'a>(out: &mut Vec<Expression<'a>>, input: &'a Json, id: Option<&'a str>)
    ensures
        exprs_view(final(out)@) == exprs_view(old(out)@) + http_call_exprs(*input, opt_str(id)),
{
    let ghost start = exprs_view(out@);
    push_input_field(out, input, "connector", id, Sink::Handler);
    push_input_field(out, input, "timeout_ms", id, Sink::Handler);
    push_map_field(out, input, "headers", "function.input.headers.", id, Sink::Handler);
    push_either_field(out, input, "path", "path_logic", id, Sink::Handler);
    push_either_field(out, input, "body", "body_logic", id, Sink::Handler);
    push_input_field(out, input, "body_format", id, Sink::Handler);
    push_either_field(out, input, "response_path", "output", id, Sink::Handler);
    push_input_field(out, input, "response_format", id, Sink::Handler);
    assert(exprs_view(out@) =~= start + http_call_exprs(*input, opt_str(id)));
}

/// Append the expressions of an `enrich` input.
fn push_enrich_exprs<'a>(out: &mut Vec<Expression<'a>>, input: &'a Json, id: Option<&'a str>)
    ensures
        exprs_view(final(out)@) == exprs_view(old(out)@) + enrich_exprs(*input, opt_str(id)),
{
    let ghost start = exprs_view(out@);
    push_input_field(out, input, "connector", id, Sink::Handler);
    push_input_field(out, input, "merge_path", id, Sink::Handler);
    push_input_field(out, input, "timeout_ms", id, Sink::Handler);
    push_either_field(out, input, "path", "path_logic", id, Sink::Handler);
    assert(exprs_view(out@) =~= start + enrich_exprs(*input, opt_str(id)));
}

/// Append the expressions of a `publish_kafka` input.
fn push_kafka_exprs<'a>(out: &mut Vec<Expression<'a>>, input: &'a Json, id: Option<&'a str>)
    ensures
        exprs_view(final(out)@) == exprs_view(old(out)@) + kafka_exprs(*input, opt_str(id)),
{
    let ghost start = exprs_view(out@);
    push_input_field(out, input, "connector", id, Sink::Handler);
    push_input_field(out, input, "topic", id, Sink::Handler);
    push_either_field(out, input, "key", "key_logic", id, Sink::Handler);
    push_either_field(out, input, "value", "value_logic", id, Sink::Handler);
    assert(exprs_view(out@) =~= start + kafka_exprs(*input, opt_str(id)));
}

/// Append the expressions of a `parse_*` input.
fn push_parse_exprs<'a>(out: &mut Vec<Expression<'a>>, input: &'a Json, id: Option<&'a str>)
    ensures
        exprs_view(final(out)@) == exprs_view(old(out)@) + parse_exprs(*input, opt_str(id)),
{
    let ghost start = exprs_view(out@);
    push_input_field(out, input, "source", id, Sink::Message);
    push_input_field(out, input, "target", id, Sink::Message);
    assert(exprs_view(out@) =~= start + parse_exprs(*input, opt_str(id)));
}

/// Append the expressions of a `publish_*` input.
fn push_publish_exprs<'a>(out: &mut Vec<Expression<'a>>, input: &'a Json, id: Option<&'a str>)
    ensures
        exprs_view(final(out)@) == exprs_view(old(out)@) + publish_exprs(*input, opt_str(id)),
{
    let ghost start = exprs_view(out@);
    push_parse_exprs(out, input, id);
    push_input_field(out, input, "root_element", id, Sink::Message);
    assert(exprs_view(out@) =~= start + publish_exprs(*input, opt_str(id)));
}

/// Append the expressions of one step of the walk.
fn push_step_exprs<'a>(out: &mut Vec<Expression<'a>>, step: &AuthoredStep<'a>)
    ensures
        exprs_view(final(out)@) == exprs_view(old(out)@) + step_exprs(step.view_step()),
{
    let ghost start = exprs_view(out@);
    let node: &'a Json = step.node;
    let id: Option<&'a str> = match node.get("id") {
        Some(v) => v.as_str(),
        None => None,
    };
    assert(opt_str(id) == step_id_text(*node));
    match step.kind {
        StepKind::TooDeep => {
            assert(exprs_view(out@) =~= start + step_exprs(step.view_step()));
        },
        StepKind::Group => {
            let c = node.get("condition");
            assert(opt_json(c) == node.field("condition"@));
            push_condition(out, c, id);
        },
        StepKind::Leaf => {
            let c = node.get("condition");
            assert(opt_json(c) == node.field("condition"@));
            push_condition(out, c, id);
            let ghost mid = exprs_view(out@);
            match node.get("function") {
                Some(f) => {
                    push_function_exprs(out, f, id);
                },
                None => {},
            }
            assert(exprs_view(out@) =~= start + step_exprs(step.view_step()));
        },
    }
}

/// Every JSONLogic expression of an authored workflow, with where it lives
/// and where its result goes, in visiting order: the workflow's condition,
/// then each step in pre-order (a group's condition before its members).
pub fn for_each_expression(workflow: &Json) -> (r: Vec<Expression<'_>>)
    ensures
        exprs_view(r@) == workflow_exprs(*workflow),
{
    let mut out: Vec<Expression<'_>> = Vec::new();
    let c = workflow.get("condition");
    assert(opt_json(c) == workflow.field("condition"@));
    assert(exprs_view(out@) =~= Seq::<ExprView>::empty());
    push_condition(&mut out, c, None);
    let ghost head = exprs_view(out@);
    match workflow.get("tasks") {
        Some(tasks) => {
            let steps = walk_authored_steps(tasks);
            let ghost walk = steps_view(steps@);
            let mut k: usize = 0;
            while k < steps.len()
                invariant
                    k <= steps@.len(),
                    walk == steps_view(steps@),
                    walk.len() == steps@.len(),
                    exprs_view(out@) == head + steps_exprs(walk, k as int),
                decreases steps@.len() - k,
            {
                assert(walk[k as int] == steps@[k as int].view_step());
                push_step_exprs(&mut out, &steps[k]);
                assert(exprs_view(out@) =~= head + steps_exprs(walk, k + 1));
                k = k + 1;
            }
        },
        None => {
            assert(authored_walk(Json::Null) =~= Seq::<StepView>::empty());
            assert(exprs_view(out@) =~= head + steps_exprs(Seq::<StepView>::empty(), 0));
        },
    }
    out
}

} // verus!

//! JSONLogic compilation and evaluation, done by the `datalogic-rs` engine.
//!
//! The engine reads `serde_json` values; the library hands it its own
//! values built as such, and reads back of a result what its callers decide
//! on: a boolean, a string's contents, or the compact JSON text of anything
//! else.

use vstd::prelude::*;
use std::sync::Arc;
use datalogic_rs::CompiledNode;
use crate::error::DataflowError;
use crate::json::{Json, JsonView};
use crate::values::{EngineValue, to_engine};
use crate::template::literal_string;
use crate::reading::{
    Node, ReadValue, display_text, engine_value, top_node, value_display, value_of,
};
use crate::text::{owned, push_str, signed_decimal};
use crate::paths::split_dots;

verus! {

/// The JSONLogic engine.
#[verifier::external_type_specification]
#[verifier::external_body]
pub struct ExDataLogic(datalogic_rs::DataLogic);

/// An expression the engine compiled.
#[verifier::external_type_specification]
#[verifier::external_body]
pub struct ExCompiledLogic(datalogic_rs::CompiledLogic);

/// The engine's error.
#[verifier::external_type_specification]
#[verifier::external_body]
pub struct ExLogicError(datalogic_rs::Error);

/// A JSON value as the engine reads and returns it.
#[verifier::external_type_specification]
#[verifier::external_body]
pub struct ExJsonValue(serde_json::Value);

/// `DataLogic::with_preserve_structure`: an engine in templating mode, where
/// an object whose key names no operator is a template for an object.
/// Nothing is stated of the engine.
#[verifier::external_body]
fn templating_engine() -> (r: datalogic_rs::DataLogic) {
    datalogic_rs::DataLogic::with_preserve_structure()
}

/// What the engine's compiler makes of the expression built from
/// `source`: when it compiles, what it reduces the expression to when that
/// is a single literal, read as a result is read (`None` when it is not);
/// when it does not, the error text.
pub uninterp spec fn compiled(source: JsonView) -> Result<Option<EvaluatedView>, Seq<char>>;

/// Whether the engine compiles the expression built from `source`.
pub open spec fn compiles(source: JsonView) -> bool {
    compiled(source) is Ok
}

/// The error text for an expression built from `source` that does not
/// compile.
pub open spec fn compile_failure(source: JsonView) -> Seq<char> {
    match compiled(source) {
        Ok(_) => Seq::empty(),
        Err(m) => m,
    }
}

/// Whether the engine's compiler reduces the expression built from
/// `source` to a single literal.
pub open spec fn folds(source: JsonView) -> bool {
    compiled(source) matches Ok(Some(_))
}

/// What the engine's compiler reduces the expression built from `source`
/// to, when it reduces it to a single literal.
pub open spec fn folded_to(source: JsonView) -> EvaluatedView {
    match compiled(source) {
        Ok(Some(v)) => v,
        _ => EvaluatedView::Other(Seq::empty()),
    }
}

/// A folded literal as plain values.
pub open spec fn folded_view_of(folded: Option<Evaluated>) -> Option<EvaluatedView> {
    match folded {
        Some(f) => Some(view_evaluated(f)),
        None => None,
    }
}

/// `DataLogic::compile` on a templating engine
/// (`DataLogic::with_preserve_structure`, no custom operators, the
/// configuration `LogicEngine` evaluates with), and the compiled root read
/// for a literal (`CompiledNode::Value`), told apart as a result is. The
/// error is given by its `Display` text. The outcome, the error text and
/// the literal depend on the expression alone: the engine is built the
/// same way on every call, static folding reads no clock, and the compiled
/// expression keeps no reference to the engine. The compile path indexes
/// operator arguments only behind arity checks (compile/mod.rs, e.g.
/// `try_compile_var` and `try_compile_split_regex`); the `panic!` calls in
/// compile/optimize stand in its tests.
#[verifier::external_body]
fn compile_value(logic: &EngineValue) -> (r: Result<(Arc<datalogic_rs::CompiledLogic>, Option<Evaluated>), String>)
    ensures
        r matches Err(m) ==> (compiled(logic.source()) matches Err(t) && t == m@),
        r matches Ok(c) ==> (compiled(logic.source()) matches Ok(f) && f == folded_view_of(c.1)),
{
    let c = datalogic_rs::DataLogic::with_preserve_structure().compile(&logic.value).map_err(|e| e.to_string())?;
    let folded = match &c.root {
        CompiledNode::Value { value: serde_json::Value::Bool(b) } => Some(Evaluated::Bool(*b)),
        CompiledNode::Value { value: serde_json::Value::String(s) } => Some(Evaluated::Text(s.clone())),
        CompiledNode::Value { value } => Some(Evaluated::Other(value.to_string())),
        _ => None,
    };
    Ok((c, folded))
}

/// The path of a `{"var": "<path>"}` expression, whose one argument is a
/// string.
pub open spec fn var_path(source: JsonView) -> Option<Seq<char>> {
    match source {
        JsonView::Object(es) => if es.len() == 1 && es[0].0 == "var"@ {
            match es[0].1 {
                JsonView::Str(p) => Some(p),
                _ => None,
            }
        } else {
            None
        },
        _ => None,
    }
}

/// Whether `c` is an ASCII digit.
pub open spec fn is_digit(c: char) -> bool {
    '0' <= c && c <= '9'
}

/// The value of a run of decimal digits.
pub open spec fn digits_value(s: Seq<char>) -> nat
    decreases s.len(),
{
    if s.len() == 0 {
        0
    } else {
        digits_value(s.drop_last()) * 10 + ((s.last() as nat) - ('0' as nat)) as nat
    }
}

/// Whether a path segment is one whose reading the engine settles plainly:
/// one with no digit (a key), or one to nine digits (a key or an index).
pub open spec fn plain_segment(part: Seq<char>) -> bool {
    ||| forall|i: int| 0 <= i < part.len() ==> !is_digit(#[trigger] part[i])
    ||| 1 <= part.len() <= 9 && forall|i: int| 0 <= i < part.len() ==> is_digit(#[trigger] part[i])
}

/// Whether a `var` path is one the law below covers: not empty, and every
/// `.`-separated segment plain.
pub open spec fn plain_var_path(p: Seq<char>) -> bool {
    p.len() > 0 && forall|i: int| 0 <= i < split_dots(p).len() ==> plain_segment(#[trigger] split_dots(p)[i])
}

/// The value under `key` in an object built from `es`: the last entry
/// under it, as a map collected from the entries keeps.
pub open spec fn last_entry(es: Seq<(Seq<char>, JsonView)>, key: Seq<char>) -> Option<JsonView>
    decreases es.len(),
{
    if es.len() == 0 {
        None
    } else if es.last().0 == key {
        Some(es.last().1)
    } else {
        last_entry(es.drop_last(), key)
    }
}

/// One step of a `var` path: an object's key, or an array's index for a
/// segment of digits.
pub open spec fn var_step(v: JsonView, part: Seq<char>) -> Option<JsonView> {
    match v {
        JsonView::Object(es) => last_entry(es, part),
        JsonView::Array(items) => if part.len() > 0 && (forall|i: int|
            0 <= i < part.len() ==> is_digit(#[trigger] part[i])) && digits_value(part) < items.len() {
            Some(items[digits_value(part) as int])
        } else {
            None
        },
        _ => None,
    }
}

/// What a `var` path finds in `v`, segment by segment.
pub open spec fn var_at(v: JsonView, parts: Seq<Seq<char>>) -> Option<JsonView>
    decreases parts.len(),
{
    if parts.len() == 0 {
        Some(v)
    } else {
        match var_step(v, parts[0]) {
            Some(next) => var_at(next, parts.drop_first()),
            None => None,
        }
    }
}

/// Whether `got` is what a `var` gives for what its path found: `null`
/// when nothing was found; the value found when it is `null`, a boolean, a
/// string or a whole number.
pub open spec fn var_result_fits(found: Option<JsonView>, got: JsonView) -> bool {
    match found {
        None => got == JsonView::Null,
        Some(x) => (x is Null || x is Bool || x is Str || x is Int) ==> got == x,
    }
}

/// `DataLogic::evaluate_owned`: a compiled expression evaluated against
/// `data`. The result can depend on the time (the date operators read the
/// clock), so in general nothing is stated of it. One law is: an
/// expression `{"var": "<path>"}` compiles to a variable access
/// (compile/mod.rs `try_compile_var`, `parse_path_segments`), which walks
/// the path's `.`-separated segments through the data, each a key of an
/// object or, for digits, an index of an array, and gives a copy of what
/// it finds, `null` when it finds nothing (operators/variable.rs
/// `evaluate_compiled_var`, `try_traverse_segments`); it does not fail.
/// The law is stated for plain segments, and for what was found only when
/// it is `null`, a boolean, a string or a whole number, whose copy reads
/// back as itself.
#[verifier::external_body]
fn evaluate_value(
    engine: &datalogic_rs::DataLogic,
    logic: &Logic,
    data: EngineValue,
) -> (r: Result<ReadValue, datalogic_rs::Error>)
    ensures
        match var_path(logic.source()) {
            Some(p) => plain_var_path(p) ==> (r matches Ok(v) && var_result_fits(
                var_at(data.source(), split_dots(p)),
                v.shape(),
            )),
            None => true,
        },
{
    match engine.evaluate_owned(&logic.compiled, data.value) {
        Ok(v) => Ok(engine_value(v)),
        Err(e) => Err(e),
    }
}

/// The display text of an engine error. Nothing is stated of the text.
#[verifier::external_body]
fn logic_error_text(e: &datalogic_rs::Error) -> (r: String) {
    e.to_string()
}

/// What an evaluation gave, as its callers read it.
#[derive(Debug)]
pub enum Evaluated {
    /// A boolean.
    Bool(bool),
    /// A string, by its contents.
    Text(String),
    /// Anything else, by its compact JSON text.
    Other(String),
}

/// A result told apart: a boolean, a string's contents, or the compact JSON
/// text `serde_json` writes for anything else.
fn classify(v: ReadValue) -> (r: Evaluated)
    ensures
        match v.shape() {
            JsonView::Bool(b) => r == Evaluated::Bool(b),
            JsonView::Str(s) => r matches Evaluated::Text(t) && t@ == s,
            _ => r matches Evaluated::Other(t) && t@ == display_text(v.shape()),
        },
{
    match top_node(&v) {
        Node::Bool(b) => Evaluated::Bool(b),
        Node::Str(s) => Evaluated::Text(s),
        _ => Evaluated::Other(value_display(&v)),
    }
}

/// Whether an evaluation gave exactly `true`.
pub open spec fn is_true(e: Evaluated) -> bool {
    e matches Evaluated::Bool(true)
}

/// An evaluation as plain text: a string's contents, anything else its
/// compact JSON text.
pub open spec fn plain_text(e: Evaluated) -> Seq<char> {
    match e {
        Evaluated::Bool(b) => if b {
            "true"@
        } else {
            "false"@
        },
        Evaluated::Text(s) => s@,
        Evaluated::Other(t) => t@,
    }
}

impl Evaluated {
    /// Whether the evaluation gave exactly `true`.
    pub fn is_true(&self) -> (r: bool)
        ensures
            r == is_true(*self),
    {
        match self {
            Evaluated::Bool(b) => *b,
            _ => false,
        }
    }

    /// The evaluation as plain text: a string's contents, anything else its
    /// compact JSON text.
    pub fn plain_text(&self) -> (r: String)
        ensures
            r@ == plain_text(*self),
    {
        match self {
            Evaluated::Bool(b) => if *b {
                owned("true")
            } else {
                owned("false")
            },
            Evaluated::Text(s) => owned(s.as_str()),
            Evaluated::Other(t) => owned(t.as_str()),
        }
    }
}

impl Evaluated {
    /// A copy.
    pub fn duplicate(&self) -> (r: Evaluated)
        ensures
            r == *self,
    {
        match self {
            Evaluated::Bool(b) => Evaluated::Bool(*b),
            Evaluated::Text(t) => Evaluated::Text(t.clone()),
            Evaluated::Other(t) => Evaluated::Other(t.clone()),
        }
    }
}

/// An evaluation as plain values.
pub enum EvaluatedView {
    Bool(bool),
    Text(Seq<char>),
    Other(Seq<char>),
}

/// The view of an evaluation.
pub open spec fn view_evaluated(e: Evaluated) -> EvaluatedView {
    match e {
        Evaluated::Bool(b) => EvaluatedView::Bool(b),
        Evaluated::Text(t) => EvaluatedView::Text(t@),
        Evaluated::Other(t) => EvaluatedView::Other(t@),
    }
}

/// An evaluation's plain values as plain text, as [`plain_text`] reads it.
pub open spec fn plain_view(v: EvaluatedView) -> Seq<char> {
    match v {
        EvaluatedView::Bool(b) => if b {
            "true"@
        } else {
            "false"@
        },
        EvaluatedView::Text(s) => s,
        EvaluatedView::Other(t) => t,
    }
}

/// What a scalar literal evaluates to, read as the engine reads a value: a
/// boolean, a string by its contents, a number or `null` by its JSON text.
/// `None` for an array or an object.
pub open spec fn scalar_view(j: JsonView) -> Option<EvaluatedView> {
    match j {
        JsonView::Null => Some(EvaluatedView::Other("null"@)),
        JsonView::Bool(b) => Some(EvaluatedView::Bool(b)),
        JsonView::Str(s) => Some(EvaluatedView::Text(s)),
        JsonView::Int(i) => Some(EvaluatedView::Other(signed_decimal(i))),
        JsonView::Float(t) => Some(EvaluatedView::Other(t)),
        _ => None,
    }
}

/// What a scalar literal evaluates to.
fn scalar_evaluated(j: &Json) -> (r: Option<Evaluated>)
    ensures
        match r {
            Some(v) => scalar_view(j.view_json()) == Some(view_evaluated(v)),
            None => scalar_view(j.view_json()) is None,
        },
{
    match j {
        Json::Null => Some(Evaluated::Other(owned("null"))),
        Json::Bool(b) => Some(Evaluated::Bool(*b)),
        Json::Str(t) => Some(Evaluated::Text(owned(t.as_str()))),
        Json::Num(_) => match literal_string(j) {
            Some(t) => Some(Evaluated::Other(t)),
            None => None,
        },
        _ => None,
    }
}

/// What an expression folds to when compiled: a scalar literal is kept as
/// itself; anything else is what the compiler reduced it to, when it
/// reduced it to a literal.
pub open spec fn fold_of(source: JsonView) -> Option<EvaluatedView> {
    match scalar_view(source) {
        Some(v) => Some(v),
        None => if folds(source) {
            Some(folded_to(source))
        } else {
            None
        },
    }
}

/// A compiled expression.
#[derive(Debug)]
pub struct Logic {
    compiled: Arc<datalogic_rs::CompiledLogic>,
    /// What the compiler reduced the expression to, when it read nothing of
    /// the message.
    folded: Option<Evaluated>,
    /// The expression that was compiled.
    source: Json,
}

impl Logic {
    /// A compiled expression holds what its source folds to.
    #[verifier::type_invariant]
    spec fn folded_matches_source(self) -> bool {
        match self.folded {
            Some(f) => fold_of(self.source.view_json()) == Some(view_evaluated(f)),
            None => fold_of(self.source.view_json()) is None,
        }
    }

    /// What the expression was folded to, as plain values.
    pub closed spec fn folded_view(&self) -> Option<EvaluatedView> {
        match self.folded {
            Some(f) => Some(view_evaluated(f)),
            None => None,
        }
    }



    /// The expression this was compiled from.
    pub closed spec fn source(&self) -> JsonView {
        self.source.view_json()
    }

    /// The source itself when it is a scalar literal, which evaluates to
    /// itself against any data.
    pub fn scalar_source(&self) -> (r: Option<Json>)
        ensures
            match r {
                Some(j) => scalar_view(self.source()) is Some && j.view_json() == self.source(),
                None => scalar_view(self.source()) is None,
            },
    {
        match &self.source {
            Json::Null | Json::Bool(_) | Json::Num(_) | Json::Str(_) => Some(self.source.copy()),
            _ => None,
        }
    }

    /// The value the expression was folded to when it was compiled, when it
    /// reads nothing of the message: a scalar literal is itself, and any
    /// other expression what the compiler reduced it to, when it did.
    pub fn constant(&self) -> (r: Option<Evaluated>)
        ensures
            match r {
                Some(v) => fold_of(self.source()) == Some(view_evaluated(v)),
                None => fold_of(self.source()) is None,
            },
            r matches Some(v) ==> self.folded_view() == Some(view_evaluated(v)),
            r is None ==> self.folded_view() is None,
    {
        proof {
            use_type_invariant(self);
        }
        match &self.folded {
            Some(v) => Some(v.duplicate()),
            None => None,
        }
    }
}

/// The message a compile error carries: the label, then the engine's text.
pub open spec fn labelled(label: Seq<char>, text: Seq<char>) -> Seq<char> {
    label + ": "@ + text
}

/// The JSONLogic engine, in templating mode.
pub struct LogicEngine {
    engine: datalogic_rs::DataLogic,
}

impl LogicEngine {
    /// An engine in templating mode.
    pub fn new() -> (r: LogicEngine) {
        LogicEngine { engine: templating_engine() }
    }

    /// Compile an expression, built as the engine reads it. It succeeds
    /// exactly when the engine compiles it, and a success is compiled from
    /// `logic`; a failure is a `LogicEvaluation` error: the label, `: `,
    /// and the engine's text for it.
    pub fn compile(&self, logic: &Json, label: &str) -> (r: Result<Logic, DataflowError>)
        ensures
            r is Ok <==> compiles(logic.view_json()),
            r matches Ok(l) ==> l.source() == logic.view_json(),
            r matches Err(e) ==> (e matches DataflowError::LogicEvaluation(m) && m@ == labelled(
                label@,
                compile_failure(logic.view_json()),
            )),
    {
        let built = to_engine(logic);
        match compile_value(&built) {
            Ok((compiled, folded)) => {
                let folded = match scalar_evaluated(logic) {
                    Some(v) => Some(v),
                    None => folded,
                };
                Ok(Logic { compiled, folded, source: logic.copy() })
            },
            Err(detail) => {
                let mut m = owned(label);
                push_str(&mut m, ": ");
                push_str(&mut m, detail.as_str());
                Err(DataflowError::LogicEvaluation(m))
            },
        }
    }

    /// Evaluate a compiled expression against `context`; a failure is the
    /// engine's error text. A scalar literal evaluates to itself.
    pub fn evaluate(&self, logic: &Logic, context: &Json) -> (r: Result<Evaluated, String>)
        ensures
            scalar_view(logic.source()) matches Some(v) ==> (r matches Ok(e) && view_evaluated(e) == v),
            match var_path(logic.source()) {
                Some(p) => plain_var_path(p) ==> (r is Ok && match var_at(context.view_json(), split_dots(p)) {
                    Some(JsonView::Bool(b)) => r == Ok::<Evaluated, String>(Evaluated::Bool(b)),
                    Some(JsonView::Str(t)) => r matches Ok(Evaluated::Text(u)) && u@ == t,
                    _ => true,
                }),
                None => true,
            },
    {
        match scalar_evaluated(&logic.source) {
            Some(e) => {
                return Ok(e);
            },
            None => {},
        }
        let data = to_engine(context);
        match evaluate_value(&self.engine, logic, data) {
            Ok(v) => Ok(classify(v)),
            Err(e) => Err(logic_error_text(&e)),
        }
    }
}

impl LogicEngine {
    /// Evaluate a compiled expression against `context`, giving the whole
    /// value; a failure is the engine's error text. A scalar literal
    /// evaluates to itself.
    pub fn evaluate_json(&self, logic: &Logic, context: &Json) -> (r: Result<Json, String>)
        ensures
            scalar_view(logic.source()) is Some ==> (r matches Ok(j) && j.view_json() == logic.source()),
            match var_path(logic.source()) {
                Some(p) => plain_var_path(p) ==> (r matches Ok(j) && var_result_fits(
                    var_at(context.view_json(), split_dots(p)),
                    j.view_json(),
                )),
                None => true,
            },
    {
        match logic.scalar_source() {
            Some(j) => {
                return Ok(j);
            },
            None => {},
        }
        let data = to_engine(context);
        match evaluate_value(&self.engine, logic, data) {
            Ok(v) => Ok(value_of(&v)),
            Err(e) => Err(logic_error_text(&e)),
        }
    }
}

/// Whether a literal expression holds as a condition: `Some(true)` for the
/// literal `true`, `Some(false)` for any other scalar literal, `None` for
/// an expression that is not a scalar literal.
pub open spec fn literal_holds(source: JsonView) -> Option<bool> {
    match scalar_view(source) {
        Some(v) => Some(v == EvaluatedView::Bool(true)),
        None => None,
    }
}

/// Whether an evaluated condition holds: it does when it evaluated to
/// exactly `true`, and not when evaluation failed.
pub open spec fn holds(outcome: Result<Evaluated, String>) -> bool {
    outcome matches Ok(v) && is_true(v)
}

/// Whether an evaluated condition holds, given what its evaluation gave.
pub fn condition_holds(outcome: &Result<Evaluated, String>) -> (r: bool)
    ensures
        r == holds(*outcome),
{
    match outcome {
        Ok(v) => v.is_true(),
        Err(_) => false,
    }
}

/// Whether a condition holds for `context`: an absent condition (authored as
/// the literal `true`) always does; a compiled one does when it evaluates to
/// exactly `true`, and not when evaluation fails. What the evaluation gives
/// is the engine's; [`condition_holds`] says what follows from each outcome.
pub fn evaluate_condition(engine: &LogicEngine, condition: Option<&Logic>, context: &Json) -> (r: bool)
    ensures
        condition is None ==> r,
        match condition {
            Some(l) => match literal_holds(l.source()) {
                Some(b) => r == b,
                None => true,
            },
            None => true,
        },
{
    match condition {
        None => true,
        Some(logic) => {
            let outcome = engine.evaluate(logic, context);
            condition_holds(&outcome)
        },
    }
}

} // verus!

//! A config field whose authored JSON is a JSONLogic expression.
//!
//! A literal is JSONLogic for itself, so the static spelling an author writes
//! (`"data.output"`, `30000`) is a valid template. Compiled, a template is
//! evaluated against the message, unless it reads nothing of the message and
//! folded to a constant when it was compiled; never compiled, a scalar still
//! reads as itself, and anything else cannot be resolved.

use vstd::prelude::*;
use crate::compiler::{LogicCompiler, compiles_json, fails_with_label};
use crate::error::DataflowError;
use crate::json::Json;
use crate::json_text::number_json;
use crate::logic::{Evaluated, LogicEngine, Logic, fold_of, plain_text, scalar_view, view_evaluated};
use crate::text::{owned, push_decimal, push_signed_decimal, push_str};

verus! {

/// A config field holding a JSONLogic expression, kept as authored.
#[derive(Debug)]
pub struct Template {
    raw: Json,
    compiled: Option<Logic>,
    /// What the expression folded to when it was compiled, when it reads
    /// nothing of the message.
    constant: Option<Evaluated>,
}

/// The plain text of a scalar read without evaluation: a string's contents,
/// a number's or a boolean's JSON text.
pub open spec fn literal_text(raw: Json) -> Option<Seq<char>> {
    match raw {
        Json::Str(s) => Some(s@),
        Json::Num(n) => Some(number_json(n)),
        Json::Bool(b) => Some(
            if b {
                "true"@
            } else {
                "false"@
            },
        ),
        _ => None,
    }
}

/// Why a template that was never compiled cannot be evaluated.
pub open spec fn eval_not_compiled_message() -> Seq<char> {
    "Template::eval called before Template::compile — the engine did not compile this field at construction time"@
}

/// Why a template that was never compiled cannot be evaluated to plain
/// text, nor, when it is not a scalar, resolved.
pub open spec fn not_compiled_message() -> Seq<char> {
    "Template::eval_to_plain_string called before Template::compile — the engine did not compile this field at construction time"@
}

/// The plain text of a scalar, read without evaluation.
pub fn literal_string(raw: &Json) -> (r: Option<String>)
    ensures
        match r {
            Some(t) => literal_text(*raw) == Some(t@),
            None => literal_text(*raw) is None,
        },
{
    match raw {
        Json::Str(s) => Some(owned(s.as_str())),
        Json::Num(n) => {
            let mut t = String::new();
            match n {
                crate::json::Number::Int(i) => push_signed_decimal(&mut t, *i),
                crate::json::Number::UInt(u) => push_decimal(&mut t, *u),
                crate::json::Number::Float(f) => push_str(&mut t, f.as_str()),
            }
            assert(t@ =~= number_json(*n));
            Some(t)
        },
        Json::Bool(b) => Some(
            if *b {
                owned("true")
            } else {
                owned("false")
            },
        ),
        _ => None,
    }
}

/// What [`Template::resolve_string`] gives: for a template never compiled,
/// a scalar's literal text, and for anything else the not-compiled error;
/// for one compiled, the plain text of its folded constant when it has one,
/// and otherwise whatever the evaluation gave, failing only with a
/// `LogicEvaluation` error.
pub open spec fn resolves_to(t: Template, r: Result<String, DataflowError>) -> bool {
    &&& !t.compiled() ==> match literal_text(t.raw()) {
        Some(text) => r matches Ok(s) && s@ == text,
        None => r matches Err(DataflowError::LogicEvaluation(m)) && m@ == not_compiled_message(),
    }
    &&& t.constant() matches Some(v) ==> (r matches Ok(s) && s@ == plain_text(v))
    &&& t.compiled() ==> (r matches Err(e) ==> e is LogicEvaluation)
}

/// What evaluating a template gives: for one never compiled, the error
/// `not_compiled` (whatever it holds); for one compiled, whatever the
/// evaluation gave, failing only with a `LogicEvaluation` error.
pub open spec fn evaluates_to<T>(t: Template, r: Result<T, DataflowError>, not_compiled: Seq<char>) -> bool {
    &&& !t.compiled() ==> (r matches Err(DataflowError::LogicEvaluation(m)) && m@ == not_compiled)
    &&& r matches Err(e) ==> e is LogicEvaluation
}

/// Why a template that was never compiled cannot be evaluated into a
/// value.
pub open spec fn eval_into_not_compiled_message() -> Seq<char> {
    "Template::eval_into called before Template::compile — the engine did not compile this field at construction time"@
}

impl Template {
    /// A compiled expression was compiled from the authored JSON.
    #[verifier::type_invariant]
    spec fn compiled_from_raw(self) -> bool {
        self.compiled matches Some(l) ==> l.source() == self.raw.view_json()
    }
}

impl Template {
    /// The authored JSON.
    pub closed spec fn raw(&self) -> Json {
        self.raw
    }

    /// Whether the expression was compiled.
    pub closed spec fn compiled(&self) -> bool {
        self.compiled is Some
    }

    /// What the compiled expression folded to, when it reads nothing of the
    /// message; `None` for one that was never compiled.
    pub closed spec fn constant(&self) -> Option<Evaluated> {
        if self.compiled is Some {
            self.constant
        } else {
            None
        }
    }

    /// An uncompiled template over `raw`.
    pub fn new(raw: Json) -> (r: Template)
        ensures
            r.raw() == raw,
            !r.compiled(),
            r.constant() is None,
    {
        Template { raw, compiled: None, constant: None }
    }

    /// The authored JSON, unchanged.
    pub fn as_json(&self) -> (r: &Json)
        ensures
            *r == self.raw(),
    {
        &self.raw
    }

    /// Whether the expression was compiled.
    pub fn is_compiled(&self) -> (r: bool)
        ensures
            r == self.compiled(),
    {
        self.compiled.is_some()
    }

    /// Whether the expression folded to a constant when it was compiled.
    /// Never for a template that was not compiled.
    pub fn is_constant(&self) -> (r: bool)
        ensures
            r == self.constant() is Some,
    {
        match &self.compiled {
            Some(_) => self.constant.is_some(),
            None => false,
        }
    }

    /// The folded constant as plain text, when the expression folded to
    /// one.
    pub fn constant_string(&self) -> (r: Option<String>)
        ensures
            match self.constant() {
                Some(v) => r matches Some(s) && s@ == plain_text(v),
                None => r is None,
            },
    {
        match &self.compiled {
            Some(_) => match &self.constant {
                Some(v) => Some(v.plain_text()),
                None => None,
            },
            None => None,
        }
    }

    /// Compile the expression, keeping what it folded to when it reads
    /// nothing of the message; a failure carries `label` and leaves the
    /// template as it was.
    pub fn compile(&mut self, compiler: &LogicCompiler, label: &str) -> (r: Result<(), DataflowError>)
        ensures
            final(self).raw() == old(self).raw(),
            r is Ok <==> compiles_json(old(self).raw()),
            match r {
                Ok(()) => final(self).compiled() && match final(self).constant() {
                    Some(v) => fold_of(old(self).raw().view_json()) == Some(view_evaluated(v)),
                    None => fold_of(old(self).raw().view_json()) is None,
                },
                Err(e) => fails_with_label(e, label@) && final(self).compiled() == old(
                    self,
                ).compiled() && final(self).constant() == old(self).constant(),
            },
    {
        proof {
            use_type_invariant(&*self);
        }
        match compiler.compile(&self.raw, label) {
            Ok(logic) => {
                self.constant = logic.constant();
                self.compiled = Some(logic);
                Ok(())
            },
            Err(e) => Err(e),
        }
    }

    /// Evaluate the expression against `context`. A template that was never
    /// compiled cannot be evaluated, whatever it holds.
    pub fn eval(&self, engine: &LogicEngine, context: &Json) -> (r: Result<Evaluated, DataflowError>)
        ensures
            evaluates_to(*self, r, eval_not_compiled_message()),
            self.compiled() ==> match scalar_view(self.raw().view_json()) {
                Some(v) => r matches Ok(e) && view_evaluated(e) == v,
                None => true,
            },
    {
        proof {
            use_type_invariant(self);
        }
        match &self.compiled {
            Some(logic) => match engine.evaluate(logic, context) {
                Ok(v) => Ok(v),
                Err(e) => Err(DataflowError::LogicEvaluation(e)),
            },
            None => Err(
                DataflowError::LogicEvaluation(
                    owned(
                        "Template::eval called before Template::compile — the engine did not compile this field at construction time",
                    ),
                ),
            ),
        }
    }

    /// As [`Template::eval`], for a value handed on whole rather than read:
    /// a template never compiled names this method in its error.
    pub fn eval_into(&self, engine: &LogicEngine, context: &Json) -> (r: Result<
        Evaluated,
        DataflowError,
    >)
        ensures
            evaluates_to(*self, r, eval_into_not_compiled_message()),
            self.compiled() ==> match scalar_view(self.raw().view_json()) {
                Some(v) => r matches Ok(e) && view_evaluated(e) == v,
                None => true,
            },
    {
        proof {
            use_type_invariant(self);
        }
        match &self.compiled {
            Some(logic) => match engine.evaluate(logic, context) {
                Ok(v) => Ok(v),
                Err(e) => Err(DataflowError::LogicEvaluation(e)),
            },
            None => Err(
                DataflowError::LogicEvaluation(
                    owned(
                        "Template::eval_into called before Template::compile — the engine did not compile this field at construction time",
                    ),
                ),
            ),
        }
    }

    /// As [`Template::eval`], as plain text: a string's contents, anything
    /// else its compact JSON text.
    pub fn eval_to_plain_string(&self, engine: &LogicEngine, context: &Json) -> (r: Result<
        String,
        DataflowError,
    >)
        ensures
            evaluates_to(*self, r, not_compiled_message()),
    {
        match &self.compiled {
            Some(logic) => match engine.evaluate(logic, context) {
                Ok(v) => Ok(v.plain_text()),
                Err(e) => Err(DataflowError::LogicEvaluation(e)),
            },
            None => Err(
                DataflowError::LogicEvaluation(
                    owned(
                        "Template::eval_to_plain_string called before Template::compile — the engine did not compile this field at construction time",
                    ),
                ),
            ),
        }
    }

    /// The template's value for `context` as plain text: a string's
    /// contents, anything else its compact JSON text. Compiled, it is its
    /// folded constant, or else evaluated; never compiled, a scalar reads as
    /// itself and anything else is an error.
    pub fn resolve_string(&self, engine: &LogicEngine, context: &Json) -> (r: Result<
        String,
        DataflowError,
    >)
        ensures
            resolves_to(*self, r),
    {
        match &self.compiled {
            Some(logic) => match &self.constant {
                Some(v) => Ok(v.plain_text()),
                None => match engine.evaluate(logic, context) {
                    Ok(v) => Ok(v.plain_text()),
                    Err(e) => Err(DataflowError::LogicEvaluation(e)),
                },
            },
            None => match literal_string(&self.raw) {
                Some(t) => Ok(t),
                None => Err(
                    DataflowError::LogicEvaluation(
                        owned(
                            "Template::eval_to_plain_string called before Template::compile — the engine did not compile this field at construction time",
                        ),
                    ),
                ),
            },
        }
    }
}

} // verus!

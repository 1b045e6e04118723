//! The `validation` built-in: rules that must each evaluate to exactly
//! `true`, and the errors a message collects for those that do not.
//!
//! Evaluating a rule is the expression engine's work; what it gave is handed
//! in as a [`RuleOutcome`] per rule, and everything that follows from it is
//! decided here.

use vstd::prelude::*;
use crate::error::{DataflowError, ErrorInfo};
use crate::json::Json;
use crate::logic::{Evaluated, LogicEngine, Logic, condition_holds, holds, is_true, literal_holds};
use crate::message::Change;
use crate::message::Message;
use crate::template::{Template, literal_text};
use crate::text::{decimal, owned, push_decimal, push_str};

verus! {

/// A single rule: an expression that must evaluate to `true`, and the
/// message recorded when it does not.
#[derive(Debug)]
pub struct ValidationRule {
    /// The expression.
    pub logic: Json,
    /// The message, itself an expression; a plain string is a literal.
    pub message: Template,
    /// The compiled expression, once compiled.
    pub compiled_logic: Option<Logic>,
}

/// A list of rules, all of which must pass.
#[derive(Debug)]
pub struct ValidationConfig {
    pub rules: Vec<ValidationRule>,
}

/// The message a rule without one records.
pub open spec fn default_rule_message() -> Seq<char> {
    "Validation failed"@
}

/// Whether every rule of `rules` has a `logic`.
pub open spec fn rules_have_logic(rules: Seq<Json>) -> bool {
    forall|i: int| 0 <= i < rules.len() ==> (#[trigger] rules[i]).field("logic"@) is Some
}

/// Whether `r` is what reading a `ValidationConfig` input from `input` gives.
pub open spec fn validation_input_read(input: Json, r: Result<ValidationConfig, DataflowError>) -> bool {
    match input.field("rules"@) {
        None => r matches Err(DataflowError::Validation(m)) && m@
            == "Missing 'rules' array in input"@,
        Some(rules) => match rules.items() {
            None => r matches Err(DataflowError::Validation(m)) && m@
                == "'rules' must be an array"@,
            Some(items) => if rules_have_logic(items) {
                r matches Ok(c) && c.rules@.len() == items.len() && forall|i: int|
                    0 <= i < items.len() ==> {
                        let rule = #[trigger] c.rules@[i];
                        &&& Some(rule.logic.view_json()) == match items[i].field(
                            "logic"@,
                        ) {
                            Some(l) => Some(l.view_json()),
                            None => None,
                        }
                        &&& !rule.message.compiled()
                        &&& match items[i].field("message"@) {
                            Some(m) => rule.message.raw().view_json() == m.view_json(),
                            None => rule.message.raw() == Json::Str(rule.message.raw()->Str_0)
                                && rule.message.raw()->Str_0@ == default_rule_message(),
                        }
                    }
            } else {
                r matches Err(DataflowError::Validation(m)) && m@
                    == "Missing 'logic' in rule"@
            },
        },
    }
}

impl ValidationConfig {
    /// Read a config from its JSON input: `rules` must be an array, and each
    /// rule must have a `logic`; a rule without a `message` records
    /// `Validation failed`.
    pub fn from_json(input: &Json) -> (r: Result<ValidationConfig, DataflowError>)
        ensures
            validation_input_read(*input, r),
    {
        let rules = match input.get("rules") {
            Some(r) => r,
            None => {
                return Err(DataflowError::Validation(owned("Missing 'rules' array in input")));
            },
        };
        let items = match rules.as_array() {
            Some(items) => items,
            None => {
                return Err(DataflowError::Validation(owned("'rules' must be an array")));
            },
        };
        let mut parsed: Vec<ValidationRule> = Vec::new();
        let mut i: usize = 0;
        while i < items.len()
            invariant
                i <= items@.len(),
                input.field("rules"@) == Some(*rules),
                rules.items() == Some(items@),
                parsed@.len() == i,
                forall|k: int| 0 <= k < i ==> (#[trigger] items@[k]).field("logic"@) is Some,
                forall|k: int|
                    0 <= k < i ==> {
                        let rule = #[trigger] parsed@[k];
                        &&& Some(rule.logic.view_json()) == match items@[k].field("logic"@) {
                            Some(l) => Some(l.view_json()),
                            None => None,
                        }
                        &&& !rule.message.compiled()
                        &&& match items@[k].field("message"@) {
                            Some(m) => rule.message.raw().view_json() == m.view_json(),
                            None => rule.message.raw() == Json::Str(rule.message.raw()->Str_0)
                                && rule.message.raw()->Str_0@ == default_rule_message(),
                        }
                    },
            decreases items@.len() - i,
        {
            let rule = &items[i];
            let logic = match rule.get("logic") {
                Some(l) => l.copy(),
                None => {
                    assert(!rules_have_logic(items@));
                    return Err(DataflowError::Validation(owned("Missing 'logic' in rule")));
                },
            };
            let message = Template::new(
                match rule.get("message") {
                    Some(m) => m.copy(),
                    None => Json::Str(owned("Validation failed")),
                },
            );
            parsed.push(ValidationRule { logic, message, compiled_logic: None });
            i = i + 1;
        }
        Ok(ValidationConfig { rules: parsed })
    }
}

/// What evaluating one rule against the message gave.
#[derive(Debug)]
pub enum RuleOutcome {
    /// The rule's logic was never compiled.
    NotCompiled,
    /// The logic failed to evaluate: the evaluator's error text.
    EvaluationFailed(String),
    /// The logic evaluated; `passed` when to exactly `true`. When it did not
    /// pass, `message` is the rule's rendered message, `None` when it failed
    /// to render.
    Evaluated { passed: bool, message: Option<String> },
}

/// The error a rule records, as (code, message); none for a rule that
/// passed.
pub open spec fn rule_record(idx: nat, outcome: RuleOutcome) -> Option<(Seq<char>, Seq<char>)> {
    match outcome {
        RuleOutcome::NotCompiled => Some(
            ("COMPILATION_ERROR"@, "Logic not compiled for rule at index: "@ + decimal(idx)),
        ),
        RuleOutcome::EvaluationFailed(e) => Some(
            ("EVALUATION_ERROR"@, "Failed to evaluate rule "@ + decimal(idx) + ": "@ + e@),
        ),
        RuleOutcome::Evaluated { passed, message } => if passed {
            None
        } else {
            Some(
                (
                    "VALIDATION_ERROR"@,
                    match message {
                        Some(m) => m@,
                        None => default_rule_message(),
                    },
                ),
            )
        },
    }
}

/// The errors the first `k` rules record, in rule order.
pub open spec fn rule_records(outcomes: Seq<RuleOutcome>, k: int) -> Seq<(Seq<char>, Seq<char>)>
    decreases k,
{
    if k <= 0 {
        Seq::empty()
    } else {
        let rest = rule_records(outcomes, k - 1);
        match rule_record((k - 1) as nat, outcomes[k - 1]) {
            Some(r) => rest.push(r),
            None => rest,
        }
    }
}

/// Errors as (code, message).
pub open spec fn error_records(errors: Seq<ErrorInfo>) -> Seq<(Seq<char>, Seq<char>)> {
    errors.map_values(|e: ErrorInfo| (e.code@, e.message@))
}

/// The status a validation task records: `200` when every rule passed,
/// `400` when any recorded an error.
pub open spec fn validation_status(outcomes: Seq<RuleOutcome>) -> usize {
    if rule_records(outcomes, outcomes.len() as int).len() == 0 {
        200
    } else {
        400
    }
}

/// The error one rule records, when it records one.
fn rule_error(idx: usize, outcome: &RuleOutcome) -> (r: Option<ErrorInfo>)
    ensures
        match r {
            Some(e) => rule_record(idx as nat, *outcome) == Some((e.code@, e.message@))
                && e.path is None && e.timestamp is Some,
            None => rule_record(idx as nat, *outcome) is None,
        },
{
    match outcome {
        RuleOutcome::NotCompiled => {
            let mut m = owned("Logic not compiled for rule at index: ");
            push_decimal(&mut m, idx as u64);
            Some(ErrorInfo::simple_ref("COMPILATION_ERROR", m.as_str(), None))
        },
        RuleOutcome::EvaluationFailed(e) => {
            let mut m = owned("Failed to evaluate rule ");
            push_decimal(&mut m, idx as u64);
            push_str(&mut m, ": ");
            push_str(&mut m, e.as_str());
            Some(ErrorInfo::simple_ref("EVALUATION_ERROR", m.as_str(), None))
        },
        RuleOutcome::Evaluated { passed, message } => {
            if *passed {
                None
            } else {
                let text = match message {
                    Some(m) => m.as_str(),
                    None => "Validation failed",
                };
                Some(ErrorInfo::simple_ref("VALIDATION_ERROR", text, None))
            }
        },
    }
}

/// Record an error on `message` for every rule that did not pass, in rule
/// order, and give the status: `400` when any rule failed, `200` otherwise.
/// Nothing else of the message changes.
pub fn run_rules(message: &mut Message, outcomes: &Vec<RuleOutcome>) -> (status: usize)
    ensures
        error_records(final(message).recorded_errors()) == error_records(
            old(message).recorded_errors(),
        ) + rule_records(outcomes@, outcomes@.len() as int),
        forall|i: int|
            old(message).recorded_errors().len() <= i < final(message).recorded_errors().len()
                ==> (#[trigger] final(message).recorded_errors()[i]).path is None,
        final(message).recorded_errors().len() >= old(message).recorded_errors().len(),
        forall|i: int|
            0 <= i < old(message).recorded_errors().len() ==> #[trigger] final(message).recorded_errors()[i]
                == old(message).recorded_errors()[i],
        final(message).ctx() == old(message).ctx(),
        final(message).trail() == old(message).trail(),
        status == validation_status(outcomes@),
{
    let ghost start = message.recorded_errors();
    let mut failed = false;
    let mut i: usize = 0;
    assert(error_records(message.recorded_errors()) =~= error_records(start) + rule_records(
        outcomes@,
        0,
    ));
    while i < outcomes.len()
        invariant
            i <= outcomes@.len(),
            error_records(message.recorded_errors()) == error_records(start) + rule_records(
                outcomes@,
                i as int,
            ),
            message.recorded_errors().len() >= start.len(),
            forall|k: int| 0 <= k < start.len() ==> #[trigger] message.recorded_errors()[k] == start[k],
            forall|k: int|
                start.len() <= k < message.recorded_errors().len()
                    ==> (#[trigger] message.recorded_errors()[k]).path is None,
            failed == (rule_records(outcomes@, i as int).len() > 0),
            message.ctx() == old(message).ctx(),
            message.trail() == old(message).trail(),
        decreases outcomes@.len() - i,
    {
        let ghost before = message.recorded_errors();
        match rule_error(i, &outcomes[i]) {
            Some(e) => {
                message.add_error(e);
                failed = true;
                assert(error_records(message.recorded_errors()) =~= error_records(before).push(
                    (e.code@, e.message@),
                ));
            },
            None => {},
        }
        assert(error_records(message.recorded_errors()) =~= error_records(start) + rule_records(
            outcomes@,
            i + 1,
        ));
        i = i + 1;
    }
    if failed {
        400
    } else {
        200
    }
}

/// What a compiled rule's evaluation makes of it: a failed evaluation is
/// `EvaluationFailed` with the engine's text; otherwise the rule passes
/// exactly when it evaluated to `true`, and a failing rule carries its
/// rendered message.
pub open spec fn outcome_of(evaluation: Result<Evaluated, String>, rendered: Option<String>) -> RuleOutcome {
    match evaluation {
        Err(e) => RuleOutcome::EvaluationFailed(e),
        Ok(v) => if is_true(v) {
            RuleOutcome::Evaluated { passed: true, message: None }
        } else {
            RuleOutcome::Evaluated { passed: false, message: rendered }
        },
    }
}

/// The outcome of a compiled rule, given what the engine gave for its logic
/// and, for a failing rule, its rendered message.
pub fn rule_outcome(evaluation: Result<Evaluated, String>, rendered: Option<String>) -> (r: RuleOutcome)
    ensures
        r == outcome_of(evaluation, rendered),
        r matches RuleOutcome::Evaluated { passed, .. } ==> passed == holds(evaluation),
{
    match evaluation {
        Err(e) => RuleOutcome::EvaluationFailed(e),
        Ok(v) => if v.is_true() {
            RuleOutcome::Evaluated { passed: true, message: None }
        } else {
            RuleOutcome::Evaluated { passed: false, message: rendered }
        },
    }
}

/// Whether an outcome fits its rule: `NotCompiled` exactly for a rule
/// without compiled logic; a literal rule passes exactly when it is `true`;
/// and when a rule fails, a message that was never
/// compiled reads as its literal text, and one that is not a scalar does not
/// render.
pub open spec fn outcome_fits(rule: ValidationRule, outcome: RuleOutcome) -> bool {
    &&& match outcome {
        RuleOutcome::NotCompiled => rule.compiled_logic is None,
        RuleOutcome::EvaluationFailed(_) => rule.compiled_logic is Some,
        RuleOutcome::Evaluated { passed, message } => rule.compiled_logic is Some && (!passed
            ==> !rule.message.compiled() ==> match literal_text(rule.message.raw()) {
            Some(t) => message matches Some(m) && m@ == t,
            None => message is None,
        }),
    }
    &&& match rule.compiled_logic {
        Some(l) => match literal_holds(l.source()) {
            Some(b) => outcome matches RuleOutcome::Evaluated { passed, .. } && passed == b,
            None => true,
        },
        None => true,
    }
}

impl ValidationConfig {
    /// Evaluate every rule against the message's context, record an error
    /// for each rule that does not pass, and give the status: `400` when
    /// any rule failed, `200` otherwise. Nothing else of the message
    /// changes, and no change is recorded.
    ///
    /// The outcome of each evaluation is the engine's; what is recorded for
    /// each is stated over it.
    pub fn execute(&self, message: &mut Message, engine: &LogicEngine) -> (r: Result<
        (usize, Vec<Change>),
        DataflowError,
    >)
        ensures
            r matches Ok((status, changes)) && changes@.len() == 0 && exists|outcomes: Seq<RuleOutcome>|
                {
                    &&& outcomes.len() == self.rules@.len()
                    &&& forall|i: int|
                        0 <= i < outcomes.len() ==> outcome_fits(self.rules@[i], #[trigger] outcomes[i])
                    &&& error_records(final(message).recorded_errors()) == error_records(
                        old(message).recorded_errors(),
                    ) + rule_records(outcomes, outcomes.len() as int)
                    &&& status == validation_status(outcomes)
                },
            final(message).ctx() == old(message).ctx(),
            final(message).trail() == old(message).trail(),
    {
        let mut outcomes: Vec<RuleOutcome> = Vec::new();
        let mut i: usize = 0;
        while i < self.rules.len()
            invariant
                i <= self.rules@.len(),
                outcomes@.len() == i,
                forall|k: int| 0 <= k < i ==> outcome_fits(self.rules@[k], #[trigger] outcomes@[k]),
            decreases self.rules@.len() - i,
        {
            let rule = &self.rules[i];
            let outcome = match &rule.compiled_logic {
                None => RuleOutcome::NotCompiled,
                Some(logic) => {
                    let evaluation = engine.evaluate(logic, message.context());
                    let rendered = if condition_holds(&evaluation) {
                        None
                    } else {
                        match rule.message.resolve_string(engine, message.context()) {
                            Ok(t) => Some(t),
                            Err(_) => None,
                        }
                    };
                    rule_outcome(evaluation, rendered)
                },
            };
            outcomes.push(outcome);
            i = i + 1;
        }
        let status = run_rules(message, &outcomes);
        Ok((status, Vec::new()))
    }
}

/// Whether a rule's outcome is a pass.
pub open spec fn rule_passed(outcome: RuleOutcome) -> bool {
    outcome matches RuleOutcome::Evaluated { passed: true, .. }
}

/// The first `k` rules record no error exactly when each of them passed.
proof fn lemma_no_records_all_passed(outcomes: Seq<RuleOutcome>, k: int)
    requires
        0 <= k <= outcomes.len(),
    ensures
        rule_records(outcomes, k).len() == 0 <==> forall|i: int| 0 <= i < k ==> #[trigger] rule_passed(
            outcomes[i],
        ),
    decreases k,
{
    if k > 0 {
        lemma_no_records_all_passed(outcomes, k - 1);
        if !rule_passed(outcomes[k - 1]) {
            assert(rule_records(outcomes, k).len() > 0);
        }
    }
}

/// A validation passes, `200`, exactly when every rule evaluated and
/// passed; a rule that failed, could not be evaluated or was never
/// compiled makes it `400`.
pub proof fn lemma_validation_passes_when_every_rule_passes(outcomes: Seq<RuleOutcome>)
    ensures
        validation_status(outcomes) == 200 <==> forall|i: int|
            0 <= i < outcomes.len() ==> #[trigger] rule_passed(outcomes[i]),
        validation_status(outcomes) == 200 || validation_status(outcomes) == 400,
{
    lemma_no_records_all_passed(outcomes, outcomes.len() as int);
}

} // verus!

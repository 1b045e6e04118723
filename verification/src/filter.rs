//! The `filter` built-in: a gate that lets a message through, skips the
//! task, or halts the workflow.

use vstd::prelude::*;
use crate::error::DataflowError;
use crate::json::Json;
use crate::logic::{Evaluated, LogicEngine, Logic, condition_holds, holds, literal_holds};
use crate::message::{Change, Message};
use crate::text::{owned, str_eq};

verus! {

/// Status: the condition passed; continue normally.
pub const FILTER_STATUS_PASS: usize = 200;
/// Status: skip the task and continue with the next.
pub const FILTER_STATUS_SKIP: usize = 298;
/// Status: halt the current workflow; no further task runs.
pub const FILTER_STATUS_HALT: usize = 299;

/// What to do when the filter condition is not met.
#[derive(Debug, Clone, Copy, PartialEq, Eq, Structural)]
pub enum RejectAction {
    /// Halt the whole workflow (the default).
    Halt,
    /// Skip only the task at hand.
    Skip,
}

impl Default for RejectAction {
    fn default() -> (r: RejectAction)
        ensures
            r == RejectAction::Halt,
    {
        RejectAction::Halt
    }
}

/// The status a filter records: a pass only when the condition evaluated to
/// exactly `true`; otherwise what `on_reject` says. A condition that failed
/// to evaluate, or was never compiled, is not met.
pub open spec fn filter_status_of(evaluated: Option<Json>, on_reject: RejectAction) -> usize {
    if evaluated == Some(Json::Bool(true)) {
        FILTER_STATUS_PASS
    } else {
        match on_reject {
            RejectAction::Halt => FILTER_STATUS_HALT,
            RejectAction::Skip => FILTER_STATUS_SKIP,
        }
    }
}

/// The status a filter records, given what its condition evaluated to
/// (`None` when evaluation failed or the condition was not compiled).
pub fn filter_status(evaluated: Option<&Json>, on_reject: RejectAction) -> (r: usize)
    ensures
        r == filter_status_of(
            match evaluated {
                Some(v) => Some(*v),
                None => None,
            },
            on_reject,
        ),
{
    let met = match evaluated {
        Some(Json::Bool(b)) => *b,
        _ => false,
    };
    if met {
        FILTER_STATUS_PASS
    } else {
        match on_reject {
            RejectAction::Halt => FILTER_STATUS_HALT,
            RejectAction::Skip => FILTER_STATUS_SKIP,
        }
    }
}

/// The status a filter records, given what its condition's evaluation
/// gave: a pass when it gave exactly `true`, otherwise what `on_reject`
/// says.
pub open spec fn outcome_status(outcome: Result<Evaluated, String>, on_reject: RejectAction) -> usize {
    if holds(outcome) {
        FILTER_STATUS_PASS
    } else {
        filter_status_of(None, on_reject)
    }
}

/// The status a filter records, given what the engine gave for its
/// condition.
pub fn filter_outcome_status(outcome: &Result<Evaluated, String>, on_reject: RejectAction) -> (r:
    usize)
    ensures
        r == outcome_status(*outcome, on_reject),
{
    if condition_holds(outcome) {
        FILTER_STATUS_PASS
    } else {
        filter_status(None, on_reject)
    }
}

/// Configuration for the filter function.
#[derive(Debug)]
pub struct FilterConfig {
    /// The condition, as authored.
    pub condition: Json,
    /// What to do when the condition is not met.
    pub on_reject: RejectAction,
    /// The compiled condition; a filter whose condition was never compiled
    /// treats it as not met.
    pub compiled_condition: Option<Logic>,
}

/// The reject action an authored `on_reject` names: `halt` when absent,
/// `halt` or `skip` by name, and nothing for anything else.
pub open spec fn reject_action_of(authored: Option<Json>) -> Option<RejectAction> {
    match authored {
        None => Some(RejectAction::Halt),
        Some(Json::Str(s)) => if s@ == "halt"@ {
            Some(RejectAction::Halt)
        } else if s@ == "skip"@ {
            Some(RejectAction::Skip)
        } else {
            None
        },
        Some(_) => None,
    }
}

/// Whether `r` is what reading a `FilterConfig` input from `input` gives.
pub open spec fn filter_input_read(input: Json, r: Result<FilterConfig, DataflowError>) -> bool {
    match input.field("condition"@) {
        None => r matches Err(DataflowError::Validation(m)) && m@
            == "missing field `condition`"@,
        Some(c) => match reject_action_of(input.field("on_reject"@)) {
            Some(a) => r matches Ok(f) && f.condition.view_json() == c.view_json()
                && f.on_reject == a && f.compiled_condition is None,
            None => r matches Err(DataflowError::Validation(m)) && m@
                == "unknown variant for `on_reject`, expected `halt` or `skip`"@,
        },
    }
}

impl FilterConfig {
    /// Read a filter's input: a required `condition` (any JSON) and an
    /// optional `on_reject`, `halt` (the default) or `skip`. The condition
    /// is not compiled.
    pub fn from_json(input: &Json) -> (r: Result<FilterConfig, DataflowError>)
        ensures
            filter_input_read(*input, r),
    {
        let condition = match input.get("condition") {
            Some(c) => c.copy(),
            None => {
                return Err(DataflowError::Validation(owned("missing field `condition`")));
            },
        };
        let on_reject = match input.get("on_reject") {
            None => RejectAction::Halt,
            Some(Json::Str(s)) if str_eq(s.as_str(), "halt") => RejectAction::Halt,
            Some(Json::Str(s)) if str_eq(s.as_str(), "skip") => RejectAction::Skip,
            Some(_) => {
                return Err(
                    DataflowError::Validation(
                        owned("unknown variant for `on_reject`, expected `halt` or `skip`"),
                    ),
                );
            },
        };
        Ok(FilterConfig { condition, on_reject, compiled_condition: None })
    }
}

impl FilterConfig {
    /// Evaluate the condition against the message's context and give the
    /// status: a pass when it evaluated to exactly `true`, otherwise what
    /// `on_reject` says ([`filter_outcome_status`] of what the engine gave).
    /// A literal condition passes exactly when it is `true`.
    /// The message does not change, and no change is recorded.
    pub fn execute(&self, message: &mut Message, engine: &LogicEngine) -> (r: Result<
        (usize, Vec<Change>),
        DataflowError,
    >)
        ensures
            r matches Ok((status, changes)) && changes@.len() == 0 && (status == FILTER_STATUS_PASS
                || status == filter_status_of(None, self.on_reject)) && (self.compiled_condition is None
                ==> status == filter_status_of(None, self.on_reject)),
            match self.compiled_condition {
                Some(l) => match literal_holds(l.source()) {
                    Some(b) => r matches Ok((status, _)) && status == if b {
                        FILTER_STATUS_PASS
                    } else {
                        filter_status_of(None, self.on_reject)
                    },
                    None => true,
                },
                None => true,
            },
            *final(message) == *old(message),
    {
        let status = match &self.compiled_condition {
            Some(logic) => {
                let outcome = engine.evaluate(logic, message.context());
                filter_outcome_status(&outcome, self.on_reject)
            },
            None => filter_status(None, self.on_reject),
        };
        Ok((status, Vec::new()))
    }
}

/// A filter passes, `200`, only on a condition that evaluated to exactly
/// `true`: any other value, a truthy one included, or a failed evaluation
/// rejects, and a rejection halts the workflow (`299`) or skips the task
/// (`298`) as `on_reject` says.
pub proof fn lemma_filter_passes_only_on_true(evaluated: Option<Json>, on_reject: RejectAction)
    ensures
        filter_status_of(evaluated, on_reject) == 200 <==> evaluated == Some(Json::Bool(true)),
        evaluated != Some(Json::Bool(true)) ==> filter_status_of(evaluated, on_reject) == match on_reject {
            RejectAction::Halt => 299usize,
            RejectAction::Skip => 298usize,
        },
{
}

} // verus!

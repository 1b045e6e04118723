//! Compiling the expressions of workflows' tasks, and the labels a compile
//! error carries.

use vstd::prelude::*;
use crate::error::DataflowError;
use crate::filter::FilterConfig;
use crate::json::Json;
use crate::log::LogConfig;
use crate::map::MapConfig;
use crate::logic::{LogicEngine, Logic, compile_failure, compiles, labelled};
use crate::text::{decimal, owned, push_decimal, push_str};
use crate::values::to_engine;
use crate::reading::{engine_value, value_display};
use crate::validation::ValidationConfig;

verus! {

/// A compile-error label: `{what} for task {task_id} in workflow
/// {workflow_id}`.
pub open spec fn label_text(what: Seq<char>, task_id: Seq<char>, workflow_id: Seq<char>) -> Seq<char> {
    what + " for task "@ + task_id + " in workflow "@ + workflow_id
}

/// The label a compile error carries, shared by every built-in whose
/// context needs no further detail.
pub fn label(what: &str, task_id: &str, workflow_id: &str) -> (r: String)
    ensures
        r@ == label_text(what@, task_id@, workflow_id@),
{
    let mut s = owned(what);
    push_str(&mut s, " for task ");
    push_str(&mut s, task_id);
    push_str(&mut s, " in workflow ");
    push_str(&mut s, workflow_id);
    s
}

/// Whether a compile failure carries `label`: a `LogicEvaluation` error
/// whose text is the label, `: ` and the engine's text.
pub open spec fn fails_with_label(e: DataflowError, label: Seq<char>) -> bool {
    e matches DataflowError::LogicEvaluation(m) && exists|t: Seq<char>| m@ == labelled(label, t)
}

/// Whether an expression compiles.
pub open spec fn compiles_json(logic: Json) -> bool {
    compiles(logic.view_json())
}

/// Whether `e` is the failure to compile `logic` under `label`: a
/// `LogicEvaluation` error carrying the label, `: ` and the engine's text.
pub open spec fn compile_error_is(e: DataflowError, label: Seq<char>, logic: Json) -> bool {
    e matches DataflowError::LogicEvaluation(m) && m@ == labelled(
        label,
        compile_failure(logic.view_json()),
    )
}

/// Whether every rule's logic compiles.
pub open spec fn rules_compile(rules: Seq<crate::validation::ValidationRule>, n: int) -> bool {
    forall|k: int| 0 <= k < n ==> compiles_json(#[trigger] rules[k].logic)
}

/// Whether every log field's expression compiles.
pub open spec fn fields_compile(fields: Seq<(String, Json)>, n: int) -> bool {
    forall|k: int| 0 <= k < n ==> compiles_json(#[trigger] fields[k].1)
}

/// The label of a validation rule's logic.
pub open spec fn rule_label(idx: nat, task_id: Seq<char>, workflow_id: Seq<char>) -> Seq<char> {
    "validation rule "@ + decimal(idx) + " for task "@ + task_id + " in workflow "@ + workflow_id
}

/// The label of a log field's expression.
pub open spec fn field_label(key: Seq<char>, task_id: Seq<char>, workflow_id: Seq<char>) -> Seq<char> {
    "log field '"@ + key + "' for task "@ + task_id + " in workflow "@ + workflow_id
}

/// Compiles the expressions of tasks into the slots their configs keep for
/// them, against one engine.
pub struct LogicCompiler {
    engine: LogicEngine,
}

impl LogicCompiler {
    /// A compiler over a fresh engine in templating mode.
    pub fn new() -> (r: LogicCompiler) {
        LogicCompiler { engine: LogicEngine::new() }
    }

    /// The engine this compiler compiles on.
    pub closed spec fn runs_on(&self) -> LogicEngine {
        self.engine
    }

    /// The engine the compiled expressions run on: the one this compiler
    /// compiles on.
    pub fn engine(&self) -> (r: &LogicEngine)
        ensures
            *r == self.runs_on(),
    {
        &self.engine
    }

    /// Compile an expression: it succeeds exactly when the engine compiles
    /// it, and a failure carries `label`.
    pub fn compile(&self, logic: &Json, label: &str) -> (r: Result<Logic, DataflowError>)
        ensures
            r is Ok <==> compiles_json(*logic),
            r matches Ok(l) ==> l.source() == logic.view_json(),
            r matches Err(e) ==> fails_with_label(e, label@) && compile_error_is(e, label@, *logic),
    {
        self.engine.compile(logic, label)
    }

    /// Compile a condition. The literal `true` compiles to nothing, which
    /// always holds; anything else is compiled.
    pub fn compile_condition(&self, condition: &Json, label: &str) -> (r: Result<
        Option<Logic>,
        DataflowError,
    >)
        ensures
            *condition == Json::Bool(true) ==> r matches Ok(None),
            *condition != Json::Bool(true) ==> (r is Ok <==> compiles_json(*condition)) && match r {
                Ok(c) => c matches Some(l) && l.source() == condition.view_json(),
                Err(e) => fails_with_label(e, label@) && compile_error_is(e, label@, *condition),
            },
    {
        if let Json::Bool(true) = condition {
            return Ok(None);
        }
        match self.compile(condition, label) {
            Ok(logic) => Ok(Some(logic)),
            Err(e) => Err(e),
        }
    }

    /// Compile a filter's condition.
    pub fn compile_filter_logic(&self, config: &mut FilterConfig, task_id: &str, workflow_id: &str) -> (r:
        Result<(), DataflowError>)
        ensures
            final(config).condition == old(config).condition,
            final(config).on_reject == old(config).on_reject,
            r is Ok <==> compiles_json(old(config).condition),
            match r {
                Ok(()) => final(config).compiled_condition matches Some(l) && l.source()
                    == old(config).condition.view_json(),
                Err(e) => fails_with_label(
                    e,
                    label_text("filter condition"@, task_id@, workflow_id@),
                ) && compile_error_is(
                    e,
                    label_text("filter condition"@, task_id@, workflow_id@),
                    old(config).condition,
                ),
            },
    {
        let l = label("filter condition", task_id, workflow_id);
        match self.compile(&config.condition, l.as_str()) {
            Ok(logic) => {
                config.compiled_condition = Some(logic);
                Ok(())
            },
            Err(e) => Err(e),
        }
    }

    /// Compile every rule of a validation, in order; the first failure
    /// stops it.
    pub fn compile_validation_logic(
        &self,
        config: &mut ValidationConfig,
        task_id: &str,
        workflow_id: &str,
    ) -> (r: Result<(), DataflowError>)
        ensures
            final(config).rules@.len() == old(config).rules@.len(),
            forall|i: int|
                0 <= i < old(config).rules@.len() ==> (#[trigger] final(config).rules@[i]).logic
                    == old(config).rules@[i].logic && final(config).rules@[i].message == old(config).rules@[i].message,
            r is Ok <==> rules_compile(old(config).rules@, old(config).rules@.len() as int),
            r matches Err(e) ==> exists|idx: int|
                0 <= idx < old(config).rules@.len() && rules_compile(old(config).rules@, idx)
                    && !compiles_json(#[trigger] old(config).rules@[idx].logic) && compile_error_is(
                    e,
                    rule_label(idx as nat, task_id@, workflow_id@),
                    old(config).rules@[idx].logic,
                ),
            match r {
                Ok(()) => forall|i: int|
                    0 <= i < final(config).rules@.len() ==> (#[trigger] final(config).rules@[i]).compiled_logic is Some,
                Err(e) => exists|idx: nat|
                    idx < old(config).rules@.len() && fails_with_label(
                        e,
                        #[trigger] rule_label(idx, task_id@, workflow_id@),
                    ),
            },
    {
        let mut i: usize = 0;
        while i < config.rules.len()
            invariant
                i <= config.rules@.len(),
                config.rules@.len() == old(config).rules@.len(),
                forall|k: int|
                    0 <= k < config.rules@.len() ==> (#[trigger] config.rules@[k]).logic == old(config).rules@[k].logic && config.rules@[k].message == old(config).rules@[k].message,
                forall|k: int| 0 <= k < i ==> (#[trigger] config.rules@[k]).compiled_logic is Some,
                rules_compile(old(config).rules@, i as int),
            decreases config.rules@.len() - i,
        {
            let mut l = owned("validation rule ");
            push_decimal(&mut l, i as u64);
            push_str(&mut l, " for task ");
            push_str(&mut l, task_id);
            push_str(&mut l, " in workflow ");
            push_str(&mut l, workflow_id);
            assert(l@ == rule_label(i as nat, task_id@, workflow_id@));
            match self.compile(&config.rules[i].logic, l.as_str()) {
                Ok(logic) => {
                    config.rules[i].compiled_logic = Some(logic);
                },
                Err(e) => {
                    assert(fails_with_label(e, rule_label(i as nat, task_id@, workflow_id@)));
                    assert(!compiles_json(old(config).rules@[i as int].logic));
                    return Err(e);
                },
            }
            assert(rules_compile(old(config).rules@, i + 1));
            i = i + 1;
        }
        Ok(())
    }

    /// Compile a log task's message and every field, in order; the first
    /// failure stops it.
    pub fn compile_log_logic(&self, config: &mut LogConfig, task_id: &str, workflow_id: &str) -> (r:
        Result<(), DataflowError>)
        ensures
            final(config).message == old(config).message,
            final(config).fields == old(config).fields,
            final(config).level == old(config).level,
            r is Ok <==> compiles_json(old(config).message) && fields_compile(
                old(config).fields@,
                old(config).fields@.len() as int,
            ),
            r matches Err(e) ==> if !compiles_json(old(config).message) {
                compile_error_is(e, label_text("log message"@, task_id@, workflow_id@), old(config).message)
            } else {
                exists|idx: int|
                    0 <= idx < old(config).fields@.len() && fields_compile(old(config).fields@, idx)
                        && !compiles_json(#[trigger] old(config).fields@[idx].1) && compile_error_is(
                        e,
                        field_label(old(config).fields@[idx].0@, task_id@, workflow_id@),
                        old(config).fields@[idx].1,
                    )
            },
            match r {
                Ok(()) => final(config).compiled_message is Some && final(config).compiled_fields@.len()
                    == old(config).fields@.len() && forall|i: int|
                    0 <= i < final(config).compiled_fields@.len() ==> (#[trigger] final(config).compiled_fields@[i]).0@ == old(config).fields@[i].0@ && final(config).compiled_fields@[i].1 is Some,
                Err(e) => fails_with_label(e, label_text("log message"@, task_id@, workflow_id@))
                    || exists|idx: int|
                    0 <= idx < old(config).fields@.len() && fails_with_label(
                        e,
                        field_label(old(config).fields@[idx].0@, task_id@, workflow_id@),
                    ),
            },
    {
        let l = label("log message", task_id, workflow_id);
        let message = match self.compile(&config.message, l.as_str()) {
            Ok(logic) => logic,
            Err(e) => {
                return Err(e);
            },
        };
        let mut compiled: Vec<(String, Option<Logic>)> = Vec::new();
        let mut i: usize = 0;
        while i < config.fields.len()
            invariant
                i <= config.fields@.len(),
                compiled@.len() == i,
                forall|k: int|
                    0 <= k < i ==> (#[trigger] compiled@[k]).0@ == config.fields@[k].0@ && compiled@[k].1 is Some,
                config.fields == old(config).fields,
                config.message == old(config).message,
                compiles_json(old(config).message),
                fields_compile(old(config).fields@, i as int),
            decreases config.fields@.len() - i,
        {
            let key = config.fields[i].0.as_str();
            let mut fl = owned("log field '");
            push_str(&mut fl, key);
            push_str(&mut fl, "' for task ");
            push_str(&mut fl, task_id);
            push_str(&mut fl, " in workflow ");
            push_str(&mut fl, workflow_id);
            assert(fl@ == field_label(key@, task_id@, workflow_id@));
            match self.compile(&config.fields[i].1, fl.as_str()) {
                Ok(logic) => {
                    compiled.push((owned(key), Some(logic)));
                },
                Err(e) => {
                    assert(!compiles_json(old(config).fields@[i as int].1));
                    return Err(e);
                },
            }
            assert(fields_compile(old(config).fields@, i + 1));
            i = i + 1;
        }
        config.compiled_message = Some(message);
        config.compiled_fields = compiled;
        Ok(())
    }
}

/// Whether every mapping's logic compiles.
pub open spec fn mappings_compile(mappings: Seq<crate::map::MapMapping>, n: int) -> bool {
    forall|k: int| 0 <= k < n ==> compiles_json(#[trigger] mappings[k].logic)
}

impl LogicCompiler {
    /// Compile every mapping's logic, in order; the first failure stops it.
    /// A failure's label names the task, the workflow and the mapping's
    /// path: its constant dotted form, or else the authored expression.
    pub fn compile_map_logic(&self, config: &mut MapConfig, task_id: &str, workflow_id: &str) -> (r:
        Result<(), DataflowError>)
        ensures
            final(config).mappings@.len() == old(config).mappings@.len(),
            forall|i: int|
                0 <= i < old(config).mappings@.len() ==> (#[trigger] final(config).mappings@[i]).view_mapping()
                    == old(config).mappings@[i].view_mapping(),
            r is Ok <==> mappings_compile(old(config).mappings@, old(config).mappings@.len() as int),
            r matches Ok(()) ==> forall|i: int|
                0 <= i < final(config).mappings@.len() ==> ((#[trigger] final(config).mappings@[i]).compiled_logic
                    matches Some(l) && l.source() == final(config).mappings@[i].logic.view_json()),
            r matches Err(e) ==> e is LogicEvaluation,
    {
        let mut i: usize = 0;
        while i < config.mappings.len()
            invariant
                i <= config.mappings@.len(),
                config.mappings@.len() == old(config).mappings@.len(),
                forall|k: int|
                    0 <= k < config.mappings@.len() ==> (#[trigger] config.mappings@[k]).view_mapping()
                        == old(config).mappings@[k].view_mapping() && config.mappings@[k].logic
                        == old(config).mappings@[k].logic,
                forall|k: int|
                    0 <= k < i ==> ((#[trigger] config.mappings@[k]).compiled_logic matches Some(l) && l.source()
                        == config.mappings@[k].logic.view_json()),
                mappings_compile(old(config).mappings@, i as int),
            decreases config.mappings@.len() - i,
        {
            let mut l = owned("map logic for task ");
            push_str(&mut l, task_id);
            push_str(&mut l, " in workflow ");
            push_str(&mut l, workflow_id);
            push_str(&mut l, " (path ");
            match config.mappings[i].path.constant_path() {
                Some(p) => push_str(&mut l, p),
                None => {
                    let t = value_display(&engine_value(to_engine(config.mappings[i].path.as_json()).into_value()));
                    push_str(&mut l, t.as_str());
                },
            }
            push_str(&mut l, ")");
            match self.compile(&config.mappings[i].logic, l.as_str()) {
                Ok(logic) => {
                    config.mappings[i].compiled_logic = Some(logic);
                },
                Err(e) => {
                    assert(!compiles_json(old(config).mappings@[i as int].logic));
                    return Err(e);
                },
            }
            assert(mappings_compile(old(config).mappings@, i + 1));
            i = i + 1;
        }
        Ok(())
    }
}

} // verus!

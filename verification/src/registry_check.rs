//! Checking a workflow definition against a registry of handlers: what an
//! engine built with these handlers would refuse or fail on.
//!
//! A custom handler decides for itself whether a task's raw input fits its
//! input type and whether its template fields compile. Those answers are
//! handed in as [`InputVerdict`]s; everything else is decided here.

use vstd::prelude::*;
use crate::authoring::{IssueCode, IssueView, WorkflowIssue, issues_view, push_issue};
use crate::config::{BuiltinKind, Registry, builtin_function_kind, builtin_kind, can_dispatch_in, canonical_builtin_name, canonical_name, dispatches};
use crate::error::DataflowError;
use crate::expressions::{opt_str, step_id_text};
use crate::json::Json;
use crate::secret_check::{check_secrets, workflow_secret_issues};
use crate::secrets::Secrets;
use crate::steps::{StepKind, StepView, authored_walk, steps_view, walk_authored_steps};
use crate::template_keys::{check_template_keys, workflow_key_issues};
use crate::text::{owned, push_str};

verus! {

/// What a custom handler made of a task's raw input.
#[derive(Debug)]
pub enum InputVerdict {
    /// The input parsed into the handler's input type and its template
    /// fields compiled.
    Accepted,
    /// The input does not deserialize into the handler's input type.
    ParseFailed(DataflowError),
    /// The input parsed, but a template field does not compile.
    CompileFailed(DataflowError),
}

/// The verdict for walk step `k`: accepted when none was handed in.
pub open spec fn verdict_at(verdicts: Seq<InputVerdict>, k: int) -> InputVerdict {
    if 0 <= k < verdicts.len() {
        verdicts[k]
    } else {
        InputVerdict::Accepted
    }
}

/// The name of a leaf's function, when it has one.
pub open spec fn function_name_of(node: Json) -> Option<Seq<char>> {
    match node.field("function"@) {
        Some(f) => match f.field("name"@) {
            Some(n) => n.str_of(),
            None => None,
        },
        None => None,
    }
}

/// Why a config-only built-in fails without a handler.
pub open spec fn missing_handler_message(name: Seq<char>) -> Seq<char> {
    "'"@ + name
        + "' ships as a config schema only — register a handler under that name, or this workflow will build cleanly and fail every message"@
}

/// Why a name nothing dispatches fails.
pub open spec fn unknown_function_message(name: Seq<char>) -> Seq<char> {
    "no handler is registered for '"@ + name + "', and it is not a built-in"@
}

/// The registry issues of one step of the walk: for a task whose function
/// no handler dispatches, why; for a custom task, what its handler made of
/// the input.
pub open spec fn task_registry_issues(step: StepView, registry: Seq<Seq<char>>, verdict: InputVerdict) -> Seq<
    IssueView,
> {
    let id = step_id_text(step.1);
    match (step.2, function_name_of(step.1)) {
        (StepKind::Leaf, Some(authored)) => {
            let name = canonical_name(authored);
            if !dispatches(registry, name) {
                if builtin_kind(name) == Some(BuiltinKind::RequiresHandler) {
                    seq![
                        (
                            IssueCode::MissingHandler,
                            missing_handler_message(name),
                            Some("function.name"@),
                            id,
                        ),
                    ]
                } else {
                    seq![
                        (
                            IssueCode::UnknownFunction,
                            unknown_function_message(name),
                            Some("function.name"@),
                            id,
                        ),
                    ]
                }
            } else if builtin_kind(name) is Some {
                Seq::empty()
            } else {
                match verdict {
                    InputVerdict::Accepted => Seq::empty(),
                    InputVerdict::ParseFailed(e) => seq![
                        (
                            IssueCode::InputParse,
                            "input does not match the handler's Input type: "@ + e.describe(),
                            Some("function.input"@),
                            id,
                        ),
                    ],
                    InputVerdict::CompileFailed(e) => seq![
                        (
                            IssueCode::TemplateCompile,
                            "a template field does not compile: "@ + e.describe(),
                            Some("function.input"@),
                            id,
                        ),
                    ],
                }
            }
        },
        _ => Seq::empty(),
    }
}

/// The registry issues of the first `k` steps of a walk.
pub open spec fn steps_registry_issues(
    steps: Seq<StepView>,
    k: int,
    registry: Seq<Seq<char>>,
    verdicts: Seq<InputVerdict>,
) -> Seq<IssueView>
    decreases k,
{
    if k <= 0 {
        Seq::empty()
    } else {
        steps_registry_issues(steps, k - 1, registry, verdicts) + task_registry_issues(
            steps[k - 1],
            registry,
            verdict_at(verdicts, k - 1),
        )
    }
}

/// Every issue of a workflow against a registry: its secret issues, its
/// template-key findings, then each task's registry issues in walk order.
pub open spec fn registry_issues(
    workflow: Json,
    registry: Seq<Seq<char>>,
    secrets: Secrets,
    verdicts: Seq<InputVerdict>,
) -> Seq<IssueView> {
    let tasks = match workflow.field("tasks"@) {
        Some(t) => t,
        None => Json::Null,
    };
    let steps = authored_walk(tasks);
    workflow_secret_issues(workflow, secrets) + workflow_key_issues(workflow) + steps_registry_issues(
        steps,
        steps.len() as int,
        registry,
        verdicts,
    )
}

/// The issue text of a handler's refusal.
fn verdict_issue(prefix: &str, e: &DataflowError) -> (r: String)
    ensures
        r@ == prefix@ + e.describe(),
{
    let mut m = owned(prefix);
    push_str(&mut m, e.to_string().as_str());
    m
}

/// Append the registry issues of one walked step.
fn check_task(
    node: &Json,
    kind: StepKind,
    registry: &Registry,
    verdict: &InputVerdict,
    issues: &mut Vec<WorkflowIssue>,
)
    ensures
        issues_view(final(issues)@) == issues_view(old(issues)@) + task_registry_issues(
            (Seq::<char>::empty(), *node, kind, 0),
            registry.names_view(),
            *verdict,
        ),
{
    let ghost start = issues_view(issues@);
    let ghost step = (Seq::<char>::empty(), *node, kind, 0nat);
    let id: Option<&str> = match node.get("id") {
        Some(v) => v.as_str(),
        None => None,
    };
    assert(opt_str(id) == step_id_text(*node));
    let authored: &str = match (kind, node.get("function")) {
        (StepKind::Leaf, Some(f)) => match f.get("name") {
            Some(n) => match n.as_str() {
                Some(s) => s,
                None => {
                    assert(issues_view(issues@) =~= start + task_registry_issues(
                        step,
                        registry.names_view(),
                        *verdict,
                    ));
                    return ;
                },
            },
            None => {
                assert(issues_view(issues@) =~= start + task_registry_issues(
                    step,
                    registry.names_view(),
                    *verdict,
                ));
                return ;
            },
        },
        _ => {
            assert(issues_view(issues@) =~= start + task_registry_issues(
                step,
                registry.names_view(),
                *verdict,
            ));
            return ;
        },
    };
    assert(function_name_of(*node) == Some(authored@));
    let name = canonical_builtin_name(authored);
    if !can_dispatch_in(registry, name) {
        let (code, message) = match builtin_function_kind(name) {
            Some(BuiltinKind::RequiresHandler) => {
                let mut m = owned("'");
                push_str(&mut m, name);
                push_str(
                    &mut m,
                    "' ships as a config schema only — register a handler under that name, or this workflow will build cleanly and fail every message",
                );
                (IssueCode::MissingHandler, m)
            },
            _ => {
                let mut m = owned("no handler is registered for '");
                push_str(&mut m, name);
                push_str(&mut m, "', and it is not a built-in");
                (IssueCode::UnknownFunction, m)
            },
        };
        push_issue(issues, WorkflowIssue::at(code, owned("function.name"), message).with_step(id));
    } else if builtin_function_kind(name).is_none() {
        match verdict {
            InputVerdict::Accepted => {},
            InputVerdict::ParseFailed(e) => {
                let m = verdict_issue("input does not match the handler's Input type: ", e);
                push_issue(
                    issues,
                    WorkflowIssue::at(IssueCode::InputParse, owned("function.input"), m).with_step(id),
                );
            },
            InputVerdict::CompileFailed(e) => {
                let m = verdict_issue("a template field does not compile: ", e);
                push_issue(
                    issues,
                    WorkflowIssue::at(IssueCode::TemplateCompile, owned("function.input"), m).with_step(
                        id,
                    ),
                );
            },
        }
    }
    assert(issues_view(issues@) =~= start + task_registry_issues(
        step,
        registry.names_view(),
        *verdict,
    ));
}

/// Check an authored workflow against a handler registry.
///
/// The secret issues and every template-key finding come first, then, for
/// each task in walk order, the reason no handler dispatches its function,
/// or what its custom handler made of its input: `verdicts[k]` is the
/// handler's answer for walk step `k`, and a missing answer counts as
/// accepted.
pub fn check_against_registry(
    workflow: &Json,
    registry: &Registry,
    secrets: &Secrets,
    verdicts: &Vec<InputVerdict>,
) -> (issues: Vec<WorkflowIssue>)
    ensures
        issues_view(issues@) == registry_issues(*workflow, registry.names_view(), *secrets, verdicts@),
{
    let mut issues = check_secrets(workflow, secrets);
    let keys = check_template_keys(workflow);
    let ghost head = issues_view(issues@) + issues_view(keys@);
    let mut j: usize = 0;
    while j < keys.len()
        invariant
            j <= keys@.len(),
            head == workflow_secret_issues(*workflow, *secrets) + workflow_key_issues(*workflow),
            issues_view(issues@) == workflow_secret_issues(*workflow, *secrets) + issues_view(
                keys@,
            ).take(j as int),
        decreases keys@.len() - j,
    {
        push_issue(&mut issues, keys[j].copied());
        assert(issues_view(keys@).take(j + 1) =~= issues_view(keys@).take(j as int).push(
            keys@[j as int].view_issue(),
        ));
        j = j + 1;
    }
    assert(issues_view(keys@).take(keys@.len() as int) =~= issues_view(keys@));
    let ghost reg = registry.names_view();
    let null = Json::Null;
    let tasks: &Json = match workflow.get("tasks") {
        Some(t) => t,
        None => &null,
    };
    let steps = walk_authored_steps(tasks);
    let ghost walk = steps_view(steps@);
    let mut k: usize = 0;
    while k < steps.len()
        invariant
            k <= steps@.len(),
            walk == steps_view(steps@),
            walk.len() == steps@.len(),
            reg == registry.names_view(),
            issues_view(issues@) == head + steps_registry_issues(walk, k as int, reg, verdicts@),
        decreases steps@.len() - k,
    {
        let accepted = InputVerdict::Accepted;
        let verdict: &InputVerdict = if k < verdicts.len() {
            &verdicts[k]
        } else {
            &accepted
        };
        assert(*verdict == verdict_at(verdicts@, k as int));
        let step = &steps[k];
        assert(walk[k as int] == step.view_step());
        check_task(step.node, step.kind, registry, verdict, &mut issues);
        assert(task_registry_issues(walk[k as int], reg, *verdict) == task_registry_issues(
            (Seq::<char>::empty(), *step.node, step.kind, 0),
            reg,
            *verdict,
        ));
        assert(issues_view(issues@) =~= head + steps_registry_issues(
            walk,
            k + 1,
            reg,
            verdicts@,
        ));
        k = k + 1;
    }
    issues
}

} // verus!

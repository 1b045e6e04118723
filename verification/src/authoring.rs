//! Authoring-time validation: checking a workflow definition before it
//! reaches an engine build.
//!
//! [`check_shape`] walks the authored document and reports *every* semantic
//! violation, each with the coordinate the author typed
//! (`tasks[1].tasks[0].id`), rather than failing on the first one.

use vstd::prelude::*;
use crate::json::{Json, non_empty_str, non_empty_str_of};
use crate::steps::{
    AuthoredStep, MAX_GROUP_DEPTH, StepKind, StepView, authored_walk, group_members,
    steps_view, walk_authored_steps,
};
use crate::text::{
    decimal, owned, push_decimal, push_signed_decimal, push_str, signed_decimal, str_eq,
};

verus! {

/// Why a workflow definition is not loadable.
#[derive(Debug, Clone, Copy, PartialEq, Eq, Hash, Structural)]
#[non_exhaustive]
pub enum IssueCode {
    /// `id` is missing or empty.
    EmptyWorkflowId,
    /// `name` is missing or empty.
    EmptyWorkflowName,
    /// `tasks` is missing, not an array, or empty.
    NoTasks,
    /// A step carries no `id`.
    MissingStepId,
    /// Two steps share an id. Groups share the task id namespace.
    DuplicateStepId,
    /// A group's `tasks` is not a non-empty array.
    EmptyGroup,
    /// A group is nested at or beyond [`MAX_GROUP_DEPTH`].
    GroupTooDeep,
    /// A task carries no `function`.
    MissingFunction,
    /// `function` is not an object, or its `name` is missing or empty.
    InvalidFunctionName,
    /// `terminal` is present but not a boolean.
    InvalidTerminal,
    /// `loop.increment` is below 1 — the counter would never reach `max`.
    LoopIncrementTooSmall,
    /// `loop.max` is not greater than `loop.init` — no sweep could ever run.
    LoopBoundEmpty,
    /// `loop.counter` is not a non-empty dotted path.
    LoopCounterInvalid,
    /// No handler will dispatch this function name, and it is not a built-in.
    UnknownFunction,
    /// The name is a built-in that ships as a config schema only, and no
    /// handler is registered under it.
    MissingHandler,
    /// A custom task's `input` does not deserialize into its handler's
    /// declared input type.
    InputParse,
    /// A template field of a custom task's input does not compile.
    TemplateCompile,
    /// An expression reads `{"secret": "name"}` and no secret of that name is
    /// declared.
    UnknownSecret,
    /// An expression whose result the engine records reads a secret.
    SecretInMessageWrite,
    /// The secret store is not a JSON object, so no name resolves.
    InvalidSecretStore,
    /// Two keys in one template object collapse to the same name once the
    /// template-key escape is stripped.
    DuplicateTemplateKey,
    /// A template key carries the escape prefix, so it is emitted with one
    /// prefix stripped. Informational.
    EscapedTemplateKey,
    /// The document does not deserialize into a workflow.
    ParseFailed,
    /// The document parses but the workflow's own validation rejects it.
    ValidateFailed,
}

/// Whether every character of `s` is an uppercase ASCII letter or `_`.
pub open spec fn code_chars(s: Seq<char>) -> bool
    decreases s.len(),
{
    if s.len() == 0 {
        true
    } else {
        ('A' <= s[0] <= 'Z' || s[0] == '_') && code_chars(s.drop_first())
    }
}

/// A string form's length, first and last character: enough to tell the
/// codes' forms apart.
pub open spec fn code_sig(s: Seq<char>) -> (nat, char, char) {
    (s.len(), s[0], s[s.len() - 1])
}

/// The code whose string form has this signature, if any.
pub open spec fn code_of_sig(sig: (nat, char, char)) -> Option<IssueCode> {
    if false {
        None
    } else if sig == (17nat, 'E', 'D') {
        Some(IssueCode::EmptyWorkflowId)
    } else if sig == (19nat, 'E', 'E') {
        Some(IssueCode::EmptyWorkflowName)
    } else if sig == (8nat, 'N', 'S') {
        Some(IssueCode::NoTasks)
    } else if sig == (15nat, 'M', 'D') {
        Some(IssueCode::MissingStepId)
    } else if sig == (17nat, 'D', 'D') {
        Some(IssueCode::DuplicateStepId)
    } else if sig == (11nat, 'E', 'P') {
        Some(IssueCode::EmptyGroup)
    } else if sig == (14nat, 'G', 'P') {
        Some(IssueCode::GroupTooDeep)
    } else if sig == (16nat, 'M', 'N') {
        Some(IssueCode::MissingFunction)
    } else if sig == (21nat, 'I', 'E') {
        Some(IssueCode::InvalidFunctionName)
    } else if sig == (16nat, 'I', 'L') {
        Some(IssueCode::InvalidTerminal)
    } else if sig == (24nat, 'L', 'L') {
        Some(IssueCode::LoopIncrementTooSmall)
    } else if sig == (16nat, 'L', 'Y') {
        Some(IssueCode::LoopBoundEmpty)
    } else if sig == (20nat, 'L', 'D') {
        Some(IssueCode::LoopCounterInvalid)
    } else if sig == (16nat, 'U', 'N') {
        Some(IssueCode::UnknownFunction)
    } else if sig == (15nat, 'M', 'R') {
        Some(IssueCode::MissingHandler)
    } else if sig == (11nat, 'I', 'E') {
        Some(IssueCode::InputParse)
    } else if sig == (16nat, 'T', 'E') {
        Some(IssueCode::TemplateCompile)
    } else if sig == (14nat, 'U', 'T') {
        Some(IssueCode::UnknownSecret)
    } else if sig == (23nat, 'S', 'E') {
        Some(IssueCode::SecretInMessageWrite)
    } else if sig == (20nat, 'I', 'E') {
        Some(IssueCode::InvalidSecretStore)
    } else if sig == (22nat, 'D', 'Y') {
        Some(IssueCode::DuplicateTemplateKey)
    } else if sig == (20nat, 'E', 'Y') {
        Some(IssueCode::EscapedTemplateKey)
    } else if sig == (12nat, 'P', 'D') {
        Some(IssueCode::ParseFailed)
    } else if sig == (15nat, 'V', 'D') {
        Some(IssueCode::ValidateFailed)
    } else {
        None
    }
}

/// A code's string form names it back through its signature, and uses only
/// uppercase ASCII letters and `_`.
proof fn lemma_code_text_names_its_code(c: IssueCode)
    ensures
        code_of_sig(code_sig(c.code_text())) == Some(c),
        code_chars(c.code_text()),
        c.code_text().len() > 0,
{
    reveal_with_fuel(code_chars, 25);
    match c {
        IssueCode::EmptyWorkflowId => {
            reveal_strlit("EMPTY_WORKFLOW_ID");
            assert(code_sig(c.code_text()) == (17nat, 'E', 'D'));
            assert(code_chars(c.code_text()));
        },
        IssueCode::EmptyWorkflowName => {
            reveal_strlit("EMPTY_WORKFLOW_NAME");
            assert(code_sig(c.code_text()) == (19nat, 'E', 'E'));
            assert(code_chars(c.code_text()));
        },
        IssueCode::NoTasks => {
            reveal_strlit("NO_TASKS");
            assert(code_sig(c.code_text()) == (8nat, 'N', 'S'));
            assert(code_chars(c.code_text()));
        },
        IssueCode::MissingStepId => {
            reveal_strlit("MISSING_STEP_ID");
            assert(code_sig(c.code_text()) == (15nat, 'M', 'D'));
            assert(code_chars(c.code_text()));
        },
        IssueCode::DuplicateStepId => {
            reveal_strlit("DUPLICATE_STEP_ID");
            assert(code_sig(c.code_text()) == (17nat, 'D', 'D'));
            assert(code_chars(c.code_text()));
        },
        IssueCode::EmptyGroup => {
            reveal_strlit("EMPTY_GROUP");
            assert(code_sig(c.code_text()) == (11nat, 'E', 'P'));
            assert(code_chars(c.code_text()));
        },
        IssueCode::GroupTooDeep => {
            reveal_strlit("GROUP_TOO_DEEP");
            assert(code_sig(c.code_text()) == (14nat, 'G', 'P'));
            assert(code_chars(c.code_text()));
        },
        IssueCode::MissingFunction => {
            reveal_strlit("MISSING_FUNCTION");
            assert(code_sig(c.code_text()) == (16nat, 'M', 'N'));
            assert(code_chars(c.code_text()));
        },
        IssueCode::InvalidFunctionName => {
            reveal_strlit("INVALID_FUNCTION_NAME");
            assert(code_sig(c.code_text()) == (21nat, 'I', 'E'));
            assert(code_chars(c.code_text()));
        },
        IssueCode::InvalidTerminal => {
            reveal_strlit("INVALID_TERMINAL");
            assert(code_sig(c.code_text()) == (16nat, 'I', 'L'));
            assert(code_chars(c.code_text()));
        },
        IssueCode::LoopIncrementTooSmall => {
            reveal_strlit("LOOP_INCREMENT_TOO_SMALL");
            assert(code_sig(c.code_text()) == (24nat, 'L', 'L'));
            assert(code_chars(c.code_text()));
        },
        IssueCode::LoopBoundEmpty => {
            reveal_strlit("LOOP_BOUND_EMPTY");
            assert(code_sig(c.code_text()) == (16nat, 'L', 'Y'));
            assert(code_chars(c.code_text()));
        },
        IssueCode::LoopCounterInvalid => {
            reveal_strlit("LOOP_COUNTER_INVALID");
            assert(code_sig(c.code_text()) == (20nat, 'L', 'D'));
            assert(code_chars(c.code_text()));
        },
        IssueCode::UnknownFunction => {
            reveal_strlit("UNKNOWN_FUNCTION");
            assert(code_sig(c.code_text()) == (16nat, 'U', 'N'));
            assert(code_chars(c.code_text()));
        },
        IssueCode::MissingHandler => {
            reveal_strlit("MISSING_HANDLER");
            assert(code_sig(c.code_text()) == (15nat, 'M', 'R'));
            assert(code_chars(c.code_text()));
        },
        IssueCode::InputParse => {
            reveal_strlit("INPUT_PARSE");
            assert(code_sig(c.code_text()) == (11nat, 'I', 'E'));
            assert(code_chars(c.code_text()));
        },
        IssueCode::TemplateCompile => {
            reveal_strlit("TEMPLATE_COMPILE");
            assert(code_sig(c.code_text()) == (16nat, 'T', 'E'));
            assert(code_chars(c.code_text()));
        },
        IssueCode::UnknownSecret => {
            reveal_strlit("UNKNOWN_SECRET");
            assert(code_sig(c.code_text()) == (14nat, 'U', 'T'));
            assert(code_chars(c.code_text()));
        },
        IssueCode::SecretInMessageWrite => {
            reveal_strlit("SECRET_IN_MESSAGE_WRITE");
            assert(code_sig(c.code_text()) == (23nat, 'S', 'E'));
            assert(code_chars(c.code_text()));
        },
        IssueCode::InvalidSecretStore => {
            reveal_strlit("INVALID_SECRET_STORE");
            assert(code_sig(c.code_text()) == (20nat, 'I', 'E'));
            assert(code_chars(c.code_text()));
        },
        IssueCode::DuplicateTemplateKey => {
            reveal_strlit("DUPLICATE_TEMPLATE_KEY");
            assert(code_sig(c.code_text()) == (22nat, 'D', 'Y'));
            assert(code_chars(c.code_text()));
        },
        IssueCode::EscapedTemplateKey => {
            reveal_strlit("ESCAPED_TEMPLATE_KEY");
            assert(code_sig(c.code_text()) == (20nat, 'E', 'Y'));
            assert(code_chars(c.code_text()));
        },
        IssueCode::ParseFailed => {
            reveal_strlit("PARSE_FAILED");
            assert(code_sig(c.code_text()) == (12nat, 'P', 'D'));
            assert(code_chars(c.code_text()));
        },
        IssueCode::ValidateFailed => {
            reveal_strlit("VALIDATE_FAILED");
            assert(code_sig(c.code_text()) == (15nat, 'V', 'D'));
            assert(code_chars(c.code_text()));
        },
    }
}

/// `code_chars` as a statement about every character.
proof fn lemma_code_chars_each(s: Seq<char>)
    requires
        code_chars(s),
    ensures
        forall|i: int| 0 <= i < s.len() ==> ('A' <= #[trigger] s[i] <= 'Z' || s[i] == '_'),
    decreases s.len(),
{
    if s.len() > 0 {
        lemma_code_chars_each(s.drop_first());
        assert forall|i: int| 0 <= i < s.len() implies ('A' <= #[trigger] s[i] <= 'Z' || s[i] == '_') by {
            if i > 0 {
                assert(s[i] == s.drop_first()[i - 1]);
            }
        }
    }
}

/// Distinct codes have distinct string forms, and every form is non-empty
/// and made only of uppercase ASCII letters and `_`.
pub proof fn lemma_issue_codes_are_distinct_and_uppercase(a: IssueCode, b: IssueCode)
    ensures
        a != b ==> a.code_text() != b.code_text(),
        a.code_text().len() > 0,
        forall|i: int|
            0 <= i < a.code_text().len() ==> ('A' <= #[trigger] a.code_text()[i] <= 'Z' || a.code_text()[i]
                == '_'),
{
    lemma_code_text_names_its_code(a);
    lemma_code_text_names_its_code(b);
    lemma_code_chars_each(a.code_text());
}

impl IssueCode {
    /// The stable string form of a code.
    pub open spec fn code_text(self) -> Seq<char> {
        match self {
            IssueCode::EmptyWorkflowId => "EMPTY_WORKFLOW_ID"@,
            IssueCode::EmptyWorkflowName => "EMPTY_WORKFLOW_NAME"@,
            IssueCode::NoTasks => "NO_TASKS"@,
            IssueCode::MissingStepId => "MISSING_STEP_ID"@,
            IssueCode::DuplicateStepId => "DUPLICATE_STEP_ID"@,
            IssueCode::EmptyGroup => "EMPTY_GROUP"@,
            IssueCode::GroupTooDeep => "GROUP_TOO_DEEP"@,
            IssueCode::MissingFunction => "MISSING_FUNCTION"@,
            IssueCode::InvalidFunctionName => "INVALID_FUNCTION_NAME"@,
            IssueCode::InvalidTerminal => "INVALID_TERMINAL"@,
            IssueCode::LoopIncrementTooSmall => "LOOP_INCREMENT_TOO_SMALL"@,
            IssueCode::LoopBoundEmpty => "LOOP_BOUND_EMPTY"@,
            IssueCode::LoopCounterInvalid => "LOOP_COUNTER_INVALID"@,
            IssueCode::UnknownFunction => "UNKNOWN_FUNCTION"@,
            IssueCode::MissingHandler => "MISSING_HANDLER"@,
            IssueCode::InputParse => "INPUT_PARSE"@,
            IssueCode::TemplateCompile => "TEMPLATE_COMPILE"@,
            IssueCode::UnknownSecret => "UNKNOWN_SECRET"@,
            IssueCode::SecretInMessageWrite => "SECRET_IN_MESSAGE_WRITE"@,
            IssueCode::InvalidSecretStore => "INVALID_SECRET_STORE"@,
            IssueCode::DuplicateTemplateKey => "DUPLICATE_TEMPLATE_KEY"@,
            IssueCode::EscapedTemplateKey => "ESCAPED_TEMPLATE_KEY"@,
            IssueCode::ParseFailed => "PARSE_FAILED"@,
            IssueCode::ValidateFailed => "VALIDATE_FAILED"@,
        }
    }

    /// The stable string form, for serializing into an API response.
    pub fn as_str(&self) -> (s: &'static str)
        ensures
            s@ == self.code_text(),
    {
        match self {
            IssueCode::EmptyWorkflowId => "EMPTY_WORKFLOW_ID",
            IssueCode::EmptyWorkflowName => "EMPTY_WORKFLOW_NAME",
            IssueCode::NoTasks => "NO_TASKS",
            IssueCode::MissingStepId => "MISSING_STEP_ID",
            IssueCode::DuplicateStepId => "DUPLICATE_STEP_ID",
            IssueCode::EmptyGroup => "EMPTY_GROUP",
            IssueCode::GroupTooDeep => "GROUP_TOO_DEEP",
            IssueCode::MissingFunction => "MISSING_FUNCTION",
            IssueCode::InvalidFunctionName => "INVALID_FUNCTION_NAME",
            IssueCode::InvalidTerminal => "INVALID_TERMINAL",
            IssueCode::LoopIncrementTooSmall => "LOOP_INCREMENT_TOO_SMALL",
            IssueCode::LoopBoundEmpty => "LOOP_BOUND_EMPTY",
            IssueCode::LoopCounterInvalid => "LOOP_COUNTER_INVALID",
            IssueCode::UnknownFunction => "UNKNOWN_FUNCTION",
            IssueCode::MissingHandler => "MISSING_HANDLER",
            IssueCode::InputParse => "INPUT_PARSE",
            IssueCode::TemplateCompile => "TEMPLATE_COMPILE",
            IssueCode::UnknownSecret => "UNKNOWN_SECRET",
            IssueCode::SecretInMessageWrite => "SECRET_IN_MESSAGE_WRITE",
            IssueCode::InvalidSecretStore => "INVALID_SECRET_STORE",
            IssueCode::DuplicateTemplateKey => "DUPLICATE_TEMPLATE_KEY",
            IssueCode::EscapedTemplateKey => "ESCAPED_TEMPLATE_KEY",
            IssueCode::ParseFailed => "PARSE_FAILED",
            IssueCode::ValidateFailed => "VALIDATE_FAILED",
        }
    }
}

/// One problem with a workflow definition.
#[derive(Debug, Clone, PartialEq, Eq)]
pub struct WorkflowIssue {
    /// Stable machine-readable classification.
    pub code: IssueCode,
    /// Human-readable explanation. Not stable — branch on `code`.
    pub message: String,
    /// Where the problem is: the coordinate the author typed, rooted at the
    /// workflow document.
    pub path: Option<String>,
    /// The step this concerns, when it concerns one.
    pub task_id: Option<String>,
}

/// An issue as plain values: code, message, path, step id.
pub type IssueView = (IssueCode, Seq<char>, Option<Seq<char>>, Option<Seq<char>>);

/// The view of an optional string.
pub open spec fn opt_view(s: Option<String>) -> Option<Seq<char>> {
    match s {
        Some(s) => Some(s@),
        None => None,
    }
}

/// An owned copy of an optional string slice.
pub fn opt_owned(s: Option<&str>) -> (r: Option<String>)
    ensures
        opt_view(r) == match s {
            Some(t) => Some(t@),
            None => None::<Seq<char>>,
        },
{
    match s {
        Some(t) => Some(owned(t)),
        None => None,
    }
}

impl WorkflowIssue {
    pub open spec fn view_issue(self) -> IssueView {
        (self.code, self.message@, opt_view(self.path), opt_view(self.task_id))
    }

    /// A copy of this issue.
    pub fn copied(&self) -> (r: WorkflowIssue)
        ensures
            r.view_issue() == self.view_issue(),
    {
        WorkflowIssue {
            code: self.code,
            message: self.message.clone(),
            path: match &self.path {
                Some(p) => Some(p.clone()),
                None => None,
            },
            task_id: match &self.task_id {
                Some(t) => Some(t.clone()),
                None => None,
            },
        }
    }

    /// An issue at `path` concerning no particular step.
    pub fn at(code: IssueCode, path: String, message: String) -> (r: WorkflowIssue)
        ensures
            r.view_issue() == (code, message@, Some(path@), None::<Seq<char>>),
    {
        WorkflowIssue { code, message, path: Some(path), task_id: None }
    }

    /// This issue, concerning the step `id`.
    pub fn with_step(self, id: Option<&str>) -> (r: WorkflowIssue)
        ensures
            r.view_issue() == (
                self.code,
                self.message@,
                opt_view(self.path),
                match id {
                    Some(t) => Some(t@),
                    None => None::<Seq<char>>,
                },
            ),
    {
        WorkflowIssue { task_id: opt_owned(id), ..self }
    }

    /// The issue as one line: `path: message [CODE]`, or `message [CODE]`
    /// when it has no path.
    pub open spec fn describe(self) -> Seq<char> {
        match self.path {
            Some(p) => p@ + ": "@ + self.message@ + " ["@ + self.code.code_text() + "]"@,
            None => self.message@ + " ["@ + self.code.code_text() + "]"@,
        }
    }

    /// The issue as one line: `path: message [CODE]`, or `message [CODE]`
    /// when it has no path.
    pub fn to_string(&self) -> (s: String)
        ensures
            s@ == self.describe(),
    {
        let mut s = String::new();
        match &self.path {
            Some(p) => {
                push_str(&mut s, p.as_str());
                push_str(&mut s, ": ");
            },
            None => {},
        }
        push_str(&mut s, self.message.as_str());
        push_str(&mut s, " [");
        push_str(&mut s, self.code.as_str());
        push_str(&mut s, "]");
        assert(s@ =~= self.describe());
        s
    }
}

/// The views of a list of issues.
pub open spec fn issues_view(issues: Seq<WorkflowIssue>) -> Seq<IssueView> {
    issues.map_values(|i: WorkflowIssue| i.view_issue())
}

pub(crate) proof fn lemma_issues_view_push(issues: Seq<WorkflowIssue>, i: WorkflowIssue)
    ensures
        issues_view(issues.push(i)) == issues_view(issues).push(i.view_issue()),
{
    assert(issues_view(issues.push(i)) =~= issues_view(issues).push(i.view_issue()));
}

/// Push an issue, keeping track of the views.
pub(crate) fn push_issue(issues: &mut Vec<WorkflowIssue>, issue: WorkflowIssue)
    ensures
        issues_view(final(issues)@) == issues_view(old(issues)@).push(issue.view_issue()),
{
    let ghost before = issues@;
    issues.push(issue);
    proof {
        lemma_issues_view_push(before, issue);
    }
}

/// `path` with `suffix` appended.
fn joined(path: &str, suffix: &str) -> (r: String)
    ensures
        r@ == path@ + suffix@,
{
    let mut s = owned(path);
    push_str(&mut s, suffix);
    s
}

/// The id a step element carries: its `id` when that is a non-empty string.
pub open spec fn step_id(node: Json) -> Option<Seq<char>> {
    non_empty_str_of(node.field("id"@))
}

/// The first index in `from..to` of a step carrying `id`.
pub open spec fn first_index_with_id(steps: Seq<StepView>, from: int, to: int, id: Seq<char>) -> Option<
    int,
>
    decreases to - from,
{
    if from >= to {
        None
    } else if step_id(steps[from].1) == Some(id) {
        Some(from)
    } else {
        first_index_with_id(steps, from + 1, to, id)
    }
}

/// Whether a group element holds a non-empty array of members.
pub open spec fn has_members(node: Json) -> bool {
    match group_members(node) {
        Some(m) => m.len() > 0,
        None => false,
    }
}

/// The issue about step `k`'s id: missing, or already taken by an earlier
/// step (reported with the path that first claimed it).
pub open spec fn id_issues(steps: Seq<StepView>, k: int) -> Seq<IssueView> {
    let path = steps[k].0;
    match step_id(steps[k].1) {
        None => seq![
            (
                IssueCode::MissingStepId,
                "every step needs a non-empty id"@,
                Some(path + ".id"@),
                None::<Seq<char>>,
            ),
        ],
        Some(id) => match first_index_with_id(steps, 0, k, id) {
            Some(j) => seq![
                (
                    IssueCode::DuplicateStepId,
                    "step id '"@ + id + "' is already used at "@ + steps[j].0
                        + " — task groups share the task id namespace"@,
                    Some(path + ".id"@),
                    Some(id),
                ),
            ],
            None => Seq::empty(),
        },
    }
}

/// The issue about a step's `terminal`, present but not a boolean.
pub open spec fn terminal_issues(step: StepView) -> Seq<IssueView> {
    match step.1.field("terminal"@) {
        Some(t) => if t is Bool {
            Seq::empty()
        } else {
            seq![
                (
                    IssueCode::InvalidTerminal,
                    "terminal must be a boolean"@,
                    Some(step.0 + ".terminal"@),
                    step_id(step.1),
                ),
            ]
        },
        None => Seq::empty(),
    }
}

/// The issue about a task's `function`: missing, or not an object with a
/// non-empty `name`.
pub open spec fn function_issues(path: Seq<char>, node: Json, id: Option<Seq<char>>) -> Seq<
    IssueView,
> {
    match node.field("function"@) {
        None => seq![
            (
                IssueCode::MissingFunction,
                "a task needs a function — an element with neither `function` nor `tasks` is neither a task nor a group"@,
                Some(path + ".function"@),
                id,
            ),
        ],
        Some(f) => if !(f is Object) || non_empty_str_of(f.field("name"@)) is None {
            seq![
                (
                    IssueCode::InvalidFunctionName,
                    "function must be an object with a non-empty name"@,
                    Some(path + ".function.name"@),
                    id,
                ),
            ]
        } else {
            Seq::empty()
        },
    }
}

/// The issue about what kind of step this is: a task's function, a group
/// with no members, a group nested too deep.
pub open spec fn kind_issues(step: StepView) -> Seq<IssueView> {
    let id = step_id(step.1);
    match step.2 {
        StepKind::Leaf => function_issues(step.0, step.1, id),
        StepKind::Group => if has_members(step.1) {
            Seq::empty()
        } else {
            seq![
                (
                    IssueCode::EmptyGroup,
                    "a task group's tasks must be a non-empty array — an empty group can only be a mistake"@,
                    Some(step.0 + ".tasks"@),
                    id,
                ),
            ]
        },
        StepKind::TooDeep => seq![
            (
                IssueCode::GroupTooDeep,
                "task groups nested deeper than "@ + decimal(MAX_GROUP_DEPTH as nat) + " levels"@,
                Some(step.0),
                id,
            ),
        ],
    }
}

/// Every issue about step `k`, in report order.
pub open spec fn step_issues(steps: Seq<StepView>, k: int) -> Seq<IssueView> {
    id_issues(steps, k) + terminal_issues(steps[k]) + kind_issues(steps[k])
}

/// Every issue about the first `k` steps, in walk order.
pub open spec fn steps_issues(steps: Seq<StepView>, k: int) -> Seq<IssueView>
    decreases k,
{
    if k <= 0 {
        Seq::empty()
    } else {
        steps_issues(steps, k - 1) + step_issues(steps, k - 1)
    }
}

/// The issues [`check_steps`] reports for an authored `tasks` value.
pub open spec fn tasks_issues(tasks: Json) -> Seq<IssueView> {
    steps_issues(authored_walk(tasks), authored_walk(tasks).len() as int)
}

/// The index of the first of `steps[..k]` carrying `id`.
fn find_first_with_id(steps: &Vec<AuthoredStep>, k: usize, id: &str) -> (r: Option<usize>)
    requires
        k <= steps@.len(),
    ensures
        r matches Some(j) ==> j < k,
        match r {
            Some(j) => first_index_with_id(steps_view(steps@), 0, k as int, id@) == Some(j as int),
            None => first_index_with_id(steps_view(steps@), 0, k as int, id@) is None,
        },
{
    let ghost sv = steps_view(steps@);
    let mut j: usize = 0;
    while j < k
        invariant
            k <= steps@.len(),
            sv == steps_view(steps@),
            j <= k,
            first_index_with_id(sv, 0, k as int, id@) == first_index_with_id(sv, j as int, k as int, id@),
        decreases k - j,
    {
        let other = non_empty_str(steps[j].node, "id");
        assert(sv[j as int] == steps@[j as int].view_step());
        match other {
            Some(o) => {
                if str_eq(o, id) {
                    return Some(j);
                }
            },
            None => {},
        }
        j = j + 1;
    }
    None
}

/// Report the issues of a task's `function`.
fn check_function(path: &str, node: &Json, id: Option<&str>, issues: &mut Vec<WorkflowIssue>)
    ensures
        issues_view(final(issues)@) == issues_view(old(issues)@) + function_issues(
            path@,
            *node,
            match id {
                Some(t) => Some(t@),
                None => None::<Seq<char>>,
            },
        ),
{
    let ghost before = issues@;
    match node.get("function") {
        None => {
            let issue = WorkflowIssue::at(
                IssueCode::MissingFunction,
                joined(path, ".function"),
                owned(
                    "a task needs a function — an element with neither `function` nor `tasks` is neither a task nor a group",
                ),
            ).with_step(id);
            push_issue(issues, issue);
        },
        Some(f) => {
            if !f.is_object() || non_empty_str(f, "name").is_none() {
                let issue = WorkflowIssue::at(
                    IssueCode::InvalidFunctionName,
                    joined(path, ".function.name"),
                    owned("function must be an object with a non-empty name"),
                ).with_step(id);
                push_issue(issues, issue);
            } else {
                assert(issues_view(issues@) =~= issues_view(before) + Seq::<IssueView>::empty());
            }
        },
    }
    assert(issues_view(issues@) =~= issues_view(before) + function_issues(
        path@,
        *node,
        match id {
            Some(t) => Some(t@),
            None => None::<Seq<char>>,
        },
    ));
}

/// Report the issues of the `k`-th walked step.
fn check_step(steps: &Vec<AuthoredStep>, k: usize, issues: &mut Vec<WorkflowIssue>)
    requires
        k < steps@.len(),
    ensures
        issues_view(final(issues)@) == issues_view(old(issues)@) + step_issues(
            steps_view(steps@),
            k as int,
        ),
{
    let ghost sv = steps_view(steps@);
    let ghost before = issues@;
    let step = &steps[k];
    assert(sv[k as int] == step.view_step());
    let id = non_empty_str(step.node, "id");
    match id {
        None => {
            let issue = WorkflowIssue::at(
                IssueCode::MissingStepId,
                joined(step.path.as_str(), ".id"),
                owned("every step needs a non-empty id"),
            ).with_step(None);
            push_issue(issues, issue);
        },
        Some(the_id) => {
            match find_first_with_id(steps, k, the_id) {
                Some(j) => {
                    assert(sv[j as int] == steps@[j as int].view_step());
                    let mut message = owned("step id '");
                    push_str(&mut message, the_id);
                    push_str(&mut message, "' is already used at ");
                    push_str(&mut message, steps[j].path.as_str());
                    push_str(&mut message, " — task groups share the task id namespace");
                    let issue = WorkflowIssue::at(
                        IssueCode::DuplicateStepId,
                        joined(step.path.as_str(), ".id"),
                        message,
                    ).with_step(id);
                    push_issue(issues, issue);
                },
                None => {},
            }
        },
    }
    let ghost after_id = issues@;
    assert(issues_view(after_id) =~= issues_view(before) + id_issues(sv, k as int));
    match step.node.get("terminal") {
        Some(t) => {
            if !t.is_boolean() {
                let issue = WorkflowIssue::at(
                    IssueCode::InvalidTerminal,
                    joined(step.path.as_str(), ".terminal"),
                    owned("terminal must be a boolean"),
                ).with_step(id);
                push_issue(issues, issue);
            }
        },
        None => {},
    }
    let ghost after_terminal = issues@;
    assert(issues_view(after_terminal) =~= issues_view(after_id) + terminal_issues(sv[k as int]));
    match step.kind {
        StepKind::Leaf => {
            check_function(step.path.as_str(), step.node, id, issues);
        },
        StepKind::Group => {
            let populated = match step.node.get("tasks") {
                Some(t) => match t.as_array() {
                    Some(members) => members.len() > 0,
                    None => false,
                },
                None => false,
            };
            if !populated {
                let issue = WorkflowIssue::at(
                    IssueCode::EmptyGroup,
                    joined(step.path.as_str(), ".tasks"),
                    owned(
                        "a task group's tasks must be a non-empty array — an empty group can only be a mistake",
                    ),
                ).with_step(id);
                push_issue(issues, issue);
            }
        },
        StepKind::TooDeep => {
            let mut message = owned("task groups nested deeper than ");
            push_decimal(&mut message, MAX_GROUP_DEPTH as u64);
            push_str(&mut message, " levels");
            let issue = WorkflowIssue::at(
                IssueCode::GroupTooDeep,
                step.path.clone(),
                message,
            ).with_step(id);
            push_issue(issues, issue);
        },
    }
    assert(issues_view(issues@) =~= issues_view(after_terminal) + kind_issues(sv[k as int]));
    assert(issues_view(issues@) =~= issues_view(before) + step_issues(sv, k as int));
}

/// Walk the authored step tree, checking each node and the id namespace.
///
/// Built on [`walk_authored_steps`], so the group test, the traversal order
/// and the depth cap have one definition shared with the walker.
pub fn check_steps(tasks: &Json, issues: &mut Vec<WorkflowIssue>)
    ensures
        issues_view(final(issues)@) == issues_view(old(issues)@) + tasks_issues(*tasks),
{
    let steps = walk_authored_steps(tasks);
    let ghost sv = steps_view(steps@);
    let ghost before = issues@;
    let mut k: usize = 0;
    while k < steps.len()
        invariant
            sv == steps_view(steps@),
            sv == authored_walk(*tasks),
            k <= steps@.len(),
            issues_view(issues@) == issues_view(before) + steps_issues(sv, k as int),
        decreases steps@.len() - k,
    {
        check_step(&steps, k, issues);
        proof {
            assert(steps_issues(sv, k + 1) == steps_issues(sv, k as int) + step_issues(sv, k as int));
            assert(issues_view(issues@) =~= issues_view(before) + steps_issues(sv, k + 1));
        }
        k = k + 1;
    }
    assert(sv.len() == steps@.len());
}

/// Rust's debug rendering of a string: quoted, with escapes.
pub uninterp spec fn debug_quoted(s: Seq<char>) -> Seq<char>;

/// Rust's debug rendering of a string (`format!("{s:?}")`): the string in
/// double quotes with quotes, backslashes and control characters escaped.
#[verifier::external_body]
pub(crate) fn debug_str(s: &str) -> (r: String)
    ensures
        r@ == debug_quoted(s@),
{
    format!("{s:?}")
}

/// Whether some `.`-separated segment of `s` is empty: `s` is empty, starts
/// or ends with `.`, or holds `..`.
pub open spec fn has_empty_segment(s: Seq<char>) -> bool {
    ||| s.len() == 0
    ||| s[0] == '.'
    ||| s[s.len() - 1] == '.'
    ||| exists|i: int| 0 <= i < s.len() - 1 && s[i] == '.' && #[trigger] s[i + 1] == '.'
}

/// Whether some `.`-separated segment of `s` is empty.
pub fn empty_segment(s: &str) -> (r: bool)
    ensures
        r == has_empty_segment(s@),
{
    let n = s.unicode_len();
    if n == 0 {
        return true;
    }
    if s.get_char(0) == '.' || s.get_char(n - 1) == '.' {
        return true;
    }
    let mut i: usize = 0;
    while i + 1 < n
        invariant
            n == s@.len(),
            n > 0,
            i + 1 <= n,
            forall|j: int| 0 <= j < i ==> !(s@[j] == '.' && #[trigger] s@[j + 1] == '.'),
        decreases n - i,
    {
        if s.get_char(i) == '.' && s.get_char(i + 1) == '.' {
            return true;
        }
        i = i + 1;
    }
    false
}

/// The value under `key` as an `i64`.
pub open spec fn int_field(config: Json, key: Seq<char>) -> Option<i64> {
    match config.field(key) {
        Some(v) => v.int_of(),
        None => None,
    }
}

/// The issues the three loop rules report against an authored `loop`
/// object. Absent fields take their defaults, which are valid, and a
/// non-integer is a type error reported elsewhere.
pub open spec fn loop_issues(config: Json) -> Seq<IssueView> {
    let init: i64 = match int_field(config, "init"@) {
        Some(i) => i,
        None => 0,
    };
    (match int_field(config, "increment"@) {
        Some(inc) => if inc < 1 {
            seq![
                (
                    IssueCode::LoopIncrementTooSmall,
                    "loop increment must be >= 1, got "@ + signed_decimal(inc as int)
                        + " (a non-advancing counter would never reach max)"@,
                    Some("loop.increment"@),
                    None::<Seq<char>>,
                ),
            ]
        } else {
            Seq::empty()
        },
        None => Seq::empty(),
    }) + (match int_field(config, "max"@) {
        Some(max) => if max <= init {
            seq![
                (
                    IssueCode::LoopBoundEmpty,
                    "loop max ("@ + signed_decimal(max as int) + ") must be greater than init ("@
                        + signed_decimal(init as int)
                        + ") — the bound is half-open, so this could never run a sweep"@,
                    Some("loop.max"@),
                    None::<Seq<char>>,
                ),
            ]
        } else {
            Seq::empty()
        },
        None => Seq::empty(),
    }) + (match config.field("counter"@) {
        Some(c) => match c.str_of() {
            Some(counter) => if has_empty_segment(counter) {
                seq![
                    (
                        IssueCode::LoopCounterInvalid,
                        "loop counter must be a non-empty temp_data field path, got "@
                            + debug_quoted(counter),
                        Some("loop.counter"@),
                        None::<Seq<char>>,
                    ),
                ]
            } else {
                Seq::empty()
            },
            None => Seq::empty(),
        },
        None => Seq::empty(),
    })
}

/// The value under `key` as an `i64`.
fn int_at(config: &Json, key: &str) -> (r: Option<i64>)
    ensures
        r == int_field(*config, key@),
{
    match config.get(key) {
        Some(v) => v.as_i64(),
        None => None,
    }
}

/// The three loop rules, against the authored `loop` object.
pub fn check_loop(config: &Json, issues: &mut Vec<WorkflowIssue>)
    ensures
        issues_view(final(issues)@) == issues_view(old(issues)@) + loop_issues(*config),
{
    let ghost before = issues@;
    match int_at(config, "increment") {
        Some(inc) => {
            if inc < 1 {
                let mut message = owned("loop increment must be >= 1, got ");
                push_signed_decimal(&mut message, inc);
                push_str(&mut message, " (a non-advancing counter would never reach max)");
                push_issue(
                    issues,
                    WorkflowIssue::at(IssueCode::LoopIncrementTooSmall, owned("loop.increment"), message),
                );
            }
        },
        None => {},
    }
    let ghost after_increment = issues@;
    let init: i64 = match int_at(config, "init") {
        Some(i) => i,
        None => 0,
    };
    match int_at(config, "max") {
        Some(max) => {
            if max <= init {
                let mut message = owned("loop max (");
                push_signed_decimal(&mut message, max);
                push_str(&mut message, ") must be greater than init (");
                push_signed_decimal(&mut message, init);
                push_str(&mut message, ") — the bound is half-open, so this could never run a sweep");
                push_issue(
                    issues,
                    WorkflowIssue::at(IssueCode::LoopBoundEmpty, owned("loop.max"), message),
                );
            }
        },
        None => {},
    }
    let ghost after_max = issues@;
    match config.get("counter") {
        Some(c) => match c.as_str() {
            Some(counter) => {
                if empty_segment(counter) {
                    let mut message = owned("loop counter must be a non-empty temp_data field path, got ");
                    let quoted = debug_str(counter);
                    push_str(&mut message, quoted.as_str());
                    push_issue(
                        issues,
                        WorkflowIssue::at(IssueCode::LoopCounterInvalid, owned("loop.counter"), message),
                    );
                }
            },
            None => {},
        },
        None => {},
    }
    assert(issues_view(issues@) =~= issues_view(before) + loop_issues(*config));
}

/// The issues [`check_shape`] reports for an authored workflow document.
pub open spec fn shape_issues(json: Json) -> Seq<IssueView> {
    (if non_empty_str_of(json.field("id"@)) is None {
        seq![
            (
                IssueCode::EmptyWorkflowId,
                "workflow id must be a non-empty string"@,
                Some("id"@),
                None::<Seq<char>>,
            ),
        ]
    } else {
        Seq::empty()
    }) + (if non_empty_str_of(json.field("name"@)) is None {
        seq![
            (
                IssueCode::EmptyWorkflowName,
                "workflow name must be a non-empty string"@,
                Some("name"@),
                None::<Seq<char>>,
            ),
        ]
    } else {
        Seq::empty()
    }) + (if has_tasks(json) {
        Seq::empty()
    } else {
        seq![
            (
                IssueCode::NoTasks,
                "workflow must have at least one task"@,
                Some("tasks"@),
                None::<Seq<char>>,
            ),
        ]
    }) + tasks_issues(
        match json.field("tasks"@) {
            Some(t) => t,
            None => Json::Null,
        },
    ) + match json.field("loop"@) {
        Some(c) => loop_issues(c),
        None => Seq::empty(),
    }
}

/// Whether the document's `tasks` is a non-empty array.
pub open spec fn has_tasks(json: Json) -> bool {
    match json.field("tasks"@) {
        Some(t) => match t.items() {
            Some(items) => items.len() > 0,
            None => false,
        },
        None => false,
    }
}

/// Every semantic violation of an authored workflow document, with the
/// coordinates the author typed, in report order: the workflow's id and
/// name, its tasks, each walked step, then the loop rules.
///
/// An empty result means the document breaks none of these rules; whether
/// it also fits the full workflow schema is a separate question.
pub fn check_shape(json: &Json) -> (issues: Vec<WorkflowIssue>)
    ensures
        issues_view(issues@) == shape_issues(*json),
{
    let mut issues: Vec<WorkflowIssue> = Vec::new();
    if non_empty_str(json, "id").is_none() {
        push_issue(
            &mut issues,
            WorkflowIssue::at(
                IssueCode::EmptyWorkflowId,
                owned("id"),
                owned("workflow id must be a non-empty string"),
            ),
        );
    }
    if non_empty_str(json, "name").is_none() {
        push_issue(
            &mut issues,
            WorkflowIssue::at(
                IssueCode::EmptyWorkflowName,
                owned("name"),
                owned("workflow name must be a non-empty string"),
            ),
        );
    }
    let ghost after_names = issues@;
    let tasks_ok = match json.get("tasks") {
        Some(t) => match t.as_array() {
            Some(items) => items.len() > 0,
            None => false,
        },
        None => false,
    };
    if !tasks_ok {
        push_issue(
            &mut issues,
            WorkflowIssue::at(
                IssueCode::NoTasks,
                owned("tasks"),
                owned("workflow must have at least one task"),
            ),
        );
    }
    let ghost after_tasks = issues@;
    let null = Json::Null;
    match json.get("tasks") {
        Some(t) => check_steps(t, &mut issues),
        None => check_steps(&null, &mut issues),
    }
    let ghost after_steps = issues@;
    match json.get("loop") {
        Some(c) => check_loop(c, &mut issues),
        None => {},
    }
    assert(issues_view(issues@) =~= shape_issues(*json));
    issues
}

/// How loading a document that breaks no authoring rule went: it parsed into
/// a workflow and validated, or the parse failed, or the workflow's own
/// validation refused it. Each failure carries its error's text.
#[derive(Debug)]
pub enum LoadOutcome {
    /// Parsed and validated.
    Loaded,
    /// The document does not deserialize into a workflow.
    ParseFailed(String),
    /// The workflow parsed, and its own validation refused it.
    ValidateFailed(String),
}

/// What `validate_authored` reports: every authoring rule the document
/// breaks; when it breaks none, the load's failure as one issue, if it
/// failed.
pub open spec fn authored_issues(json: Json, load: LoadOutcome) -> Seq<IssueView> {
    if shape_issues(json).len() > 0 {
        shape_issues(json)
    } else {
        match load {
            LoadOutcome::Loaded => Seq::empty(),
            LoadOutcome::ParseFailed(m) => seq![(IssueCode::ParseFailed, m@, None, None)],
            LoadOutcome::ValidateFailed(m) => seq![(IssueCode::ValidateFailed, m@, None, None)],
        }
    }
}

/// Check an authored workflow: every authoring rule it breaks, each with the
/// coordinate the author typed; when it breaks none, whether loading it
/// failed. `load` is how parsing the same document into a workflow, and
/// validating that, went.
///
/// Empty exactly when the document breaks no rule and loaded.
pub fn validate_authored(json: &Json, load: &LoadOutcome) -> (issues: Vec<WorkflowIssue>)
    ensures
        issues_view(issues@) == authored_issues(*json, *load),
        issues@.len() == 0 <==> (shape_issues(*json).len() == 0 && *load is Loaded),
{
    let mut issues = check_shape(json);
    if issues.len() > 0 {
        return issues;
    }
    assert(shape_issues(*json).len() == 0);
    let issue = match load {
        LoadOutcome::Loaded => {
            return issues;
        },
        LoadOutcome::ParseFailed(m) => WorkflowIssue {
            code: IssueCode::ParseFailed,
            message: m.clone(),
            path: None,
            task_id: None,
        },
        LoadOutcome::ValidateFailed(m) => WorkflowIssue {
            code: IssueCode::ValidateFailed,
            message: m.clone(),
            path: None,
            task_id: None,
        },
    };
    push_issue(&mut issues, issue);
    assert(issues_view(issues@) =~= authored_issues(*json, *load));
    issues
}

} // verus!

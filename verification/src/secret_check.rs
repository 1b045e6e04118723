//! The authoring check for `{"secret": …}` references.
//!
//! A reference is any single-key object whose key is the reserved operator
//! name, at any depth. A string (or one-element array of a string) argument
//! is a literal name and is checked against the store; anything else is
//! dynamic and only fails when evaluated. Both forms are refused in an
//! expression whose result the engine records.

use vstd::prelude::*;
use crate::authoring::{IssueCode, IssueView, WorkflowIssue, issues_view, push_issue};
use crate::expressions::{ExprView, Expression, Sink, exprs_view, for_each_expression, opt_str, workflow_exprs};
use crate::json::Json;
use crate::secrets::{SECRET_OPERATOR, Secrets};
use crate::steps::element_path;
use crate::text::{owned, push_decimal, push_str, str_eq};

verus! {

/// A reference as plain values: where it sits, and its literal name when it
/// has one.
pub type SecretRef = (Seq<char>, Option<Seq<char>>);

/// The literal name an operator argument spells: a string, or a one-element
/// array holding a string.
pub open spec fn literal_name(arg: Json) -> Option<Seq<char>> {
    match arg {
        Json::Str(s) => Some(s@),
        Json::Array(items) => if items@.len() == 1 {
            items@[0].str_of()
        } else {
            None
        },
        _ => None,
    }
}

/// `path.key`.
pub open spec fn key_path(path: Seq<char>, key: Seq<char>) -> Seq<char> {
    path + seq!['.'] + key
}

/// Whether `entries` is exactly one pair under the secret operator.
pub open spec fn is_secret_call(entries: Seq<(String, Json)>) -> bool {
    entries.len() == 1 && entries[0].0@ == SECRET_OPERATOR@
}

/// Every reference under `value`, which sits at `path`, in document order.
/// A reference's argument is searched too, since a dynamic name may itself
/// hold one.
pub open spec fn secret_refs(value: Json, path: Seq<char>) -> Seq<SecretRef>
    decreases value,
{
    match value {
        Json::Object(entries) => if is_secret_call(entries@) {
            seq![(path, literal_name(entries@[0].1))] + secret_refs(
                entries@[0].1,
                key_path(path, SECRET_OPERATOR@),
            )
        } else {
            entries_refs(entries@, path)
        },
        Json::Array(items) => items_refs(items@, path),
        _ => Seq::empty(),
    }
}

/// The references under the values of `entries`.
pub open spec fn entries_refs(entries: Seq<(String, Json)>, path: Seq<char>) -> Seq<SecretRef>
    decreases entries,
{
    if entries.len() == 0 {
        Seq::empty()
    } else {
        let last = entries[entries.len() - 1];
        entries_refs(entries.subrange(0, entries.len() - 1), path) + secret_refs(
            last.1,
            key_path(path, last.0@),
        )
    }
}

/// The references under the elements of `items`.
pub open spec fn items_refs(items: Seq<Json>, path: Seq<char>) -> Seq<SecretRef>
    decreases items,
{
    if items.len() == 0 {
        Seq::empty()
    } else {
        let i = items.len() - 1;
        items_refs(items.subrange(0, i), path) + secret_refs(items[i], element_path(path, i as nat))
    }
}

/// The views of collected references.
pub open spec fn refs_view(refs: Seq<(String, Option<&str>)>) -> Seq<SecretRef> {
    refs.map_values(|r: (String, Option<&str>)| (r.0@, opt_str(r.1)))
}

proof fn lemma_refs_view_push(refs: Seq<(String, Option<&str>)>, r: (String, Option<&str>))
    ensures
        refs_view(refs.push(r)) == refs_view(refs).push((r.0@, opt_str(r.1))),
{
    assert(refs_view(refs.push(r)) =~= refs_view(refs).push((r.0@, opt_str(r.1))));
}

/// `path.key` as a new string.
pub(crate) fn key_path_string(path: &str, key: &str) -> (r: String)
    ensures
        r@ == key_path(path@, key@),
{
    let mut s = owned(path);
    push_str(&mut s, ".");
    push_str(&mut s, key);
    proof {
        reveal_strlit(".");
    }
    assert(s@ =~= key_path(path@, key@));
    s
}

/// `path[i]` as a new string.
pub(crate) fn element_path_string(path: &str, i: usize) -> (r: String)
    ensures
        r@ == element_path(path@, i as nat),
{
    let mut s = owned(path);
    push_str(&mut s, "[");
    push_decimal(&mut s, i as u64);
    push_str(&mut s, "]");
    proof {
        reveal_strlit("[");
        reveal_strlit("]");
    }
    assert(s@ =~= element_path(path@, i as nat));
    s
}

/// The literal name an operator argument spells.
fn literal_of(arg: &Json) -> (r: Option<&str>)
    ensures
        opt_str(r) == literal_name(*arg),
{
    match arg {
        Json::Str(s) => Some(s.as_str()),
        Json::Array(items) => if items.len() == 1 {
            items[0].as_str()
        } else {
            None
        },
        _ => None,
    }
}

/// Collect every reference under `value`, which sits at `path`, as
/// `(path, literal name)`: `None` for a dynamic name.
pub fn collect_secret_refs<'v>(value: &'v Json, path: &str, out: &mut Vec<(String, Option<&'v str>)>)
    ensures
        refs_view(final(out)@) == refs_view(old(out)@) + secret_refs(*value, path@),
    decreases value,
{
    let ghost start = refs_view(out@);
    match value {
        Json::Object(entries) => {
            if entries.len() == 1 && str_eq(entries[0].0.as_str(), SECRET_OPERATOR) {
                let arg: &'v Json = &entries[0].1;
                let r = (owned(path), literal_of(arg));
                let ghost before = out@;
                out.push(r);
                proof {
                    lemma_refs_view_push(before, r);
                }
                assert(decreases_to!(*value => value->Object_0));
                assert(decreases_to!(value->Object_0 => value->Object_0@));
                assert(decreases_to!(entries@ => entries@[0]));
                assert(decreases_to!(entries@[0] => entries@[0].1));
                collect_secret_refs(arg, key_path_string(path, SECRET_OPERATOR).as_str(), out);
                assert(refs_view(out@) =~= start + secret_refs(*value, path@));
            } else {
                let mut k: usize = 0;
                assert(entries@.subrange(0, 0) =~= Seq::<(String, Json)>::empty());
                assert(refs_view(out@) =~= start + entries_refs(entries@.subrange(0, 0), path@));
                while k < entries.len()
                    invariant
                        k <= entries@.len(),
                        *value == Json::Object(*entries),
                        !is_secret_call(entries@),
                        refs_view(out@) == start + entries_refs(entries@.subrange(0, k as int), path@),
                    decreases entries@.len() - k,
                {
                    assert(decreases_to!(*value => value->Object_0));
                    assert(decreases_to!(value->Object_0 => value->Object_0@));
                    assert(decreases_to!(entries@ => entries@[k as int]));
                    assert(decreases_to!(entries@[k as int] => entries@[k as int].1));
                    let child_path = key_path_string(path, entries[k].0.as_str());
                    collect_secret_refs(&entries[k].1, child_path.as_str(), out);
                    let ghost next = entries@.subrange(0, k + 1);
                    assert(next.subrange(0, k as int) =~= entries@.subrange(0, k as int));
                    assert(next[k as int] == entries@[k as int]);
                    assert(refs_view(out@) =~= start + entries_refs(next, path@));
                    k = k + 1;
                }
                assert(entries@.subrange(0, entries@.len() as int) =~= entries@);
            }
        },
        Json::Array(items) => {
            let mut k: usize = 0;
            assert(items@.subrange(0, 0) =~= Seq::<Json>::empty());
            assert(refs_view(out@) =~= start + items_refs(items@.subrange(0, 0), path@));
            while k < items.len()
                invariant
                    k <= items@.len(),
                    *value == Json::Array(*items),
                    refs_view(out@) == start + items_refs(items@.subrange(0, k as int), path@),
                decreases items@.len() - k,
            {
                assert(decreases_to!(*value => value->Array_0));
                assert(decreases_to!(value->Array_0 => value->Array_0@));
                assert(decreases_to!(items@ => items@[k as int]));
                let child_path = element_path_string(path, k);
                collect_secret_refs(&items[k], child_path.as_str(), out);
                let ghost next = items@.subrange(0, k + 1);
                assert(next.subrange(0, k as int) =~= items@.subrange(0, k as int));
                assert(next[k as int] == items@[k as int]);
                assert(refs_view(out@) =~= start + items_refs(next, path@));
                k = k + 1;
            }
            assert(items@.subrange(0, items@.len() as int) =~= items@);
        },
        _ => {
            assert(refs_view(out@) =~= start + secret_refs(*value, path@));
        },
    }
}

/// What an issue on a recorded expression that reads a secret says.
pub open spec fn recorded_read_message() -> Seq<char> {
    "reads a secret, and the engine records this expression's result — compute derived values in a custom handler instead"@
}

/// What an issue on an undeclared secret says.
pub open spec fn unknown_secret_message(key: Seq<char>) -> Seq<char> {
    "secret '"@ + key + "' is not declared on the engine"@
}

/// The issues for the first `k` references of an expression that may read
/// secrets: one per literal name the store does not declare, at the
/// reference's own path for a raw input, at the field otherwise.
pub open spec fn unknown_secret_issues(
    refs: Seq<SecretRef>,
    k: int,
    field: Seq<char>,
    id: Option<Seq<char>>,
    sink: Sink,
    secrets: Secrets,
) -> Seq<IssueView>
    decreases k,
{
    if k <= 0 {
        Seq::empty()
    } else {
        let rest = unknown_secret_issues(refs, k - 1, field, id, sink, secrets);
        let r = refs[k - 1];
        match r.1 {
            Some(key) => if secrets.lookup_path(key) is None {
                rest.push(
                    (
                        IssueCode::UnknownSecret,
                        unknown_secret_message(key),
                        Some(
                            if sink == Sink::Input {
                                r.0
                            } else {
                                field
                            },
                        ),
                        id,
                    ),
                )
            } else {
                rest
            },
            None => rest,
        }
    }
}

/// The secret issues of one expression: none when it reads no secret; one
/// when the engine records its result; otherwise one per undeclared literal
/// name.
pub open spec fn expression_issues(e: ExprView, secrets: Secrets) -> Seq<IssueView> {
    let refs = secret_refs(e.0, e.1);
    if refs.len() == 0 {
        Seq::empty()
    } else if e.3 == Sink::Message {
        seq![(IssueCode::SecretInMessageWrite, recorded_read_message(), Some(e.1), e.2)]
    } else {
        unknown_secret_issues(refs, refs.len() as int, e.1, e.2, e.3, secrets)
    }
}

/// The secret issues of the first `k` expressions.
pub open spec fn exprs_secret_issues(es: Seq<ExprView>, k: int, secrets: Secrets) -> Seq<IssueView>
    decreases k,
{
    if k <= 0 {
        Seq::empty()
    } else {
        exprs_secret_issues(es, k - 1, secrets) + expression_issues(es[k - 1], secrets)
    }
}

/// The secret issues of a whole workflow.
pub open spec fn workflow_secret_issues(workflow: Json, secrets: Secrets) -> Seq<IssueView> {
    let es = workflow_exprs(workflow);
    exprs_secret_issues(es, es.len() as int, secrets)
}

/// One expression's worth of the secret check.
pub fn check_expression(e: &Expression, secrets: &Secrets, issues: &mut Vec<WorkflowIssue>)
    ensures
        issues_view(final(issues)@) == issues_view(old(issues)@) + expression_issues(
            e.view_expr(),
            *secrets,
        ),
{
    let ghost start = issues_view(issues@);
    let mut refs: Vec<(String, Option<&str>)> = Vec::new();
    assert(refs_view(refs@) =~= Seq::<SecretRef>::empty());
    collect_secret_refs(e.value, e.field.as_str(), &mut refs);
    let ghost rv = refs_view(refs@);
    assert(rv =~= secret_refs(*e.value, e.field@));
    if refs.len() == 0 {
        assert(issues_view(issues@) =~= start + expression_issues(e.view_expr(), *secrets));
        return ;
    }
    if e.sink.records() {
        let issue = WorkflowIssue::at(
            IssueCode::SecretInMessageWrite,
            e.field.clone(),
            owned(
                "reads a secret, and the engine records this expression's result — compute derived values in a custom handler instead",
            ),
        ).with_step(e.task_id);
        push_issue(issues, issue);
        assert(issues_view(issues@) =~= start + expression_issues(e.view_expr(), *secrets));
        return ;
    }
    let mut k: usize = 0;
    assert(issues_view(issues@) =~= start + unknown_secret_issues(
        rv,
        0,
        e.field@,
        opt_str(e.task_id),
        e.sink,
        *secrets,
    ));
    while k < refs.len()
        invariant
            k <= refs@.len(),
            rv == refs_view(refs@),
            rv.len() == refs@.len(),
            e.sink != Sink::Message,
            issues_view(issues@) == start + unknown_secret_issues(
                rv,
                k as int,
                e.field@,
                opt_str(e.task_id),
                e.sink,
                *secrets,
            ),
        decreases refs@.len() - k,
    {
        assert(rv[k as int] == (refs@[k as int].0@, opt_str(refs@[k as int].1)));
        match refs[k].1 {
            Some(key) => {
                if secrets.get(key).is_none() {
                    let at = if e.sink.points_at_reference() {
                        refs[k].0.clone()
                    } else {
                        e.field.clone()
                    };
                    let mut message = owned("secret '");
                    push_str(&mut message, key);
                    push_str(&mut message, "' is not declared on the engine");
                    let issue = WorkflowIssue::at(IssueCode::UnknownSecret, at, message).with_step(
                        e.task_id,
                    );
                    push_issue(issues, issue);
                }
            },
            None => {},
        }
        assert(issues_view(issues@) =~= start + unknown_secret_issues(
            rv,
            k + 1,
            e.field@,
            opt_str(e.task_id),
            e.sink,
            *secrets,
        ));
        k = k + 1;
    }
}

/// Check every expression of an authored workflow for `{"secret": …}`
/// references.
///
/// One implementation for two callers: an engine build refuses a workflow
/// that produces any issue here, and a host's pre-flight check reports the
/// same issues, so the two cannot disagree about what is loadable.
pub fn check_secrets(workflow: &Json, secrets: &Secrets) -> (issues: Vec<WorkflowIssue>)
    ensures
        issues_view(issues@) == workflow_secret_issues(*workflow, *secrets),
{
    let exprs = for_each_expression(workflow);
    let ghost es = exprs_view(exprs@);
    let mut issues: Vec<WorkflowIssue> = Vec::new();
    let mut k: usize = 0;
    assert(issues_view(issues@) =~= Seq::<IssueView>::empty());
    while k < exprs.len()
        invariant
            k <= exprs@.len(),
            es == exprs_view(exprs@),
            es.len() == exprs@.len(),
            issues_view(issues@) == exprs_secret_issues(es, k as int, *secrets),
        decreases exprs@.len() - k,
    {
        assert(es[k as int] == exprs@[k as int].view_expr());
        check_expression(&exprs[k], secrets, &mut issues);
        k = k + 1;
    }
    issues
}

} // verus!

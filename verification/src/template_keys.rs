//! The authoring check for object keys the template-key escape makes
//! significant.
//!
//! One prefix character is stripped from every key of a template object.
//! Two findings come of it, and only the first is fatal:
//!
//! - two keys of one object that emit the same name once the escape is
//!   stripped ([`IssueCode::DuplicateTemplateKey`]), always a bug;
//! - a key carrying the escape ([`IssueCode::EscapedTemplateKey`]), reported
//!   so every place the escape changes what a template emits can be audited.

use vstd::prelude::*;
use crate::authoring::{IssueCode, IssueView, WorkflowIssue, issues_view, push_issue};
use crate::expressions::{ExprView, Sink, exprs_view, for_each_expression, opt_str, workflow_exprs};
use crate::json::Json;
use crate::secret_check::{element_path_string, key_path, key_path_string};
use crate::secrets::entry_keys;
use crate::steps::element_path;
use crate::text::{owned, push_str, str_eq};

verus! {

/// The prefix stripped from every template key.
pub const TEMPLATE_KEY_ESCAPE: char = '$';

/// Whether a key carries the escape.
pub open spec fn is_escaped(key: Seq<char>) -> bool {
    key.len() > 0 && key[0] == TEMPLATE_KEY_ESCAPE
}

/// The name a key emits: the key with one escape stripped.
pub open spec fn emitted(key: Seq<char>) -> Seq<char> {
    if is_escaped(key) {
        key.drop_first()
    } else {
        key
    }
}

/// The latest of the first `j` keys that emits `out`.
pub open spec fn previous_emitter(keys: Seq<Seq<char>>, j: int, out: Seq<char>) -> Option<Seq<char>>
    decreases j,
{
    if j <= 0 {
        None
    } else if emitted(keys[j - 1]) == out {
        Some(keys[j - 1])
    } else {
        previous_emitter(keys, j - 1, out)
    }
}

/// What an escaped-key finding says.
pub open spec fn escaped_message(key: Seq<char>) -> Seq<char> {
    "'"@ + key + "' is emitted as '"@ + emitted(key)
        + "' — one '$' is stripped from every template key. Double it to '$"@ + key
        + "' to emit '"@ + key + "' itself"@
}

/// What a duplicate-key finding says.
pub open spec fn duplicate_message(other: Seq<char>, key: Seq<char>) -> Seq<char> {
    "'"@ + other + "' and '"@ + key + "' both emit the key '"@ + emitted(key)
        + "', so this object would carry it twice — later reads see only the first while serialization emits both"@
}

/// The findings of the `j`-th key of an object at `path`: escaped, then
/// colliding with an earlier key.
pub open spec fn one_key_issues(keys: Seq<Seq<char>>, j: int, path: Seq<char>, id: Option<Seq<char>>) -> Seq<
    IssueView,
> {
    let key = keys[j];
    let at = key_path(path, key);
    (if is_escaped(key) {
        seq![(IssueCode::EscapedTemplateKey, escaped_message(key), Some(at), id)]
    } else {
        Seq::empty()
    }) + match previous_emitter(keys, j, emitted(key)) {
        Some(other) => seq![
            (IssueCode::DuplicateTemplateKey, duplicate_message(other, key), Some(at), id),
        ],
        None => Seq::empty(),
    }
}

/// The findings of the first `k` keys of an object at `path`.
pub open spec fn key_issues(keys: Seq<Seq<char>>, k: int, path: Seq<char>, id: Option<Seq<char>>) -> Seq<
    IssueView,
>
    decreases k,
{
    if k <= 0 {
        Seq::empty()
    } else {
        key_issues(keys, k - 1, path, id) + one_key_issues(keys, k - 1, path, id)
    }
}

/// Every finding under `value`, which sits at `path`: an object's own keys,
/// then its values in order; an array's elements in order.
pub open spec fn template_issues(value: Json, path: Seq<char>, id: Option<Seq<char>>) -> Seq<IssueView>
    decreases value,
{
    match value {
        Json::Array(items) => items_template_issues(items@, path, id),
        Json::Object(entries) => key_issues(
            entry_keys(entries@),
            entries@.len() as int,
            path,
            id,
        ) + entries_template_issues(entries@, path, id),
        _ => Seq::empty(),
    }
}

/// The findings under the values of `entries`.
pub open spec fn entries_template_issues(entries: Seq<(String, Json)>, path: Seq<char>, id: Option<Seq<char>>) -> Seq<
    IssueView,
>
    decreases entries,
{
    if entries.len() == 0 {
        Seq::empty()
    } else {
        let last = entries[entries.len() - 1];
        entries_template_issues(entries.subrange(0, entries.len() - 1), path, id) + template_issues(
            last.1,
            key_path(path, last.0@),
            id,
        )
    }
}

/// The findings under the elements of `items`.
pub open spec fn items_template_issues(items: Seq<Json>, path: Seq<char>, id: Option<Seq<char>>) -> Seq<
    IssueView,
>
    decreases items,
{
    if items.len() == 0 {
        Seq::empty()
    } else {
        let i = items.len() - 1;
        items_template_issues(items.subrange(0, i), path, id) + template_issues(
            items[i],
            element_path(path, i as nat),
            id,
        )
    }
}

/// The findings of the first `k` expressions. A custom task's raw input is a
/// config document, not an expression, and is not searched.
pub open spec fn exprs_key_issues(es: Seq<ExprView>, k: int) -> Seq<IssueView>
    decreases k,
{
    if k <= 0 {
        Seq::empty()
    } else {
        let e = es[k - 1];
        exprs_key_issues(es, k - 1) + if e.3 == Sink::Input {
            Seq::empty()
        } else {
            template_issues(e.0, e.1, e.2)
        }
    }
}

/// Every template-key finding of a workflow.
pub open spec fn workflow_key_issues(workflow: Json) -> Seq<IssueView> {
    let es = workflow_exprs(workflow);
    exprs_key_issues(es, es.len() as int)
}

/// Whether a finding is fatal.
pub open spec fn is_duplicate(i: IssueView) -> bool {
    i.0 == IssueCode::DuplicateTemplateKey
}

/// The name a key emits.
fn emitted_key(key: &str) -> (r: &str)
    ensures
        r@ == emitted(key@),
{
    let n = key.unicode_len();
    if n > 0 && key.get_char(0) == TEMPLATE_KEY_ESCAPE {
        let r = key.substring_char(1, n);
        assert(r@ =~= key@.drop_first());
        r
    } else {
        key
    }
}

/// The latest of the first `j` keys of `entries` that emits `out`.
fn find_previous_emitter<'k>(entries: &'k Vec<(String, Json)>, j: usize, out: &str) -> (r: Option<&'k str>)
    requires
        j <= entries@.len(),
    ensures
        opt_str(r) == previous_emitter(entry_keys(entries@), j as int, out@),
{
    let ghost keys = entry_keys(entries@);
    let mut i: usize = j;
    while i > 0
        invariant
            i <= j <= entries@.len(),
            keys == entry_keys(entries@),
            previous_emitter(keys, j as int, out@) == previous_emitter(keys, i as int, out@),
        decreases i,
    {
        let key: &'k str = entries[i - 1].0.as_str();
        assert(keys[i - 1] == key@);
        if str_eq(emitted_key(key), out) {
            return Some(key);
        }
        i = i - 1;
    }
    None
}

/// The two key-level findings for one template object at `path`: escaped
/// keys, and keys that collide once the escape is stripped.
fn report_escaped_and_duplicate_keys(
    entries: &Vec<(String, Json)>,
    path: &str,
    task_id: Option<&str>,
    issues: &mut Vec<WorkflowIssue>,
)
    ensures
        issues_view(final(issues)@) == issues_view(old(issues)@) + key_issues(
            entry_keys(entries@),
            entries@.len() as int,
            path@,
            opt_str(task_id),
        ),
{
    let ghost keys = entry_keys(entries@);
    let ghost start = issues_view(issues@);
    let ghost id = opt_str(task_id);
    let mut j: usize = 0;
    assert(issues_view(issues@) =~= start + key_issues(keys, 0, path@, id));
    while j < entries.len()
        invariant
            j <= entries@.len(),
            keys == entry_keys(entries@),
            id == opt_str(task_id),
            issues_view(issues@) == start + key_issues(keys, j as int, path@, id),
        decreases entries@.len() - j,
    {
        let key: &str = entries[j].0.as_str();
        assert(keys[j as int] == key@);
        let ghost mid = issues_view(issues@);
        let out = emitted_key(key);
        let n = key.unicode_len();
        if n > 0 && key.get_char(0) == TEMPLATE_KEY_ESCAPE {
            let mut message = owned("'");
            push_str(&mut message, key);
            push_str(&mut message, "' is emitted as '");
            push_str(&mut message, out);
            push_str(
                &mut message,
                "' — one '$' is stripped from every template key. Double it to '$",
            );
            push_str(&mut message, key);
            push_str(&mut message, "' to emit '");
            push_str(&mut message, key);
            push_str(&mut message, "' itself");
            let issue = WorkflowIssue::at(
                IssueCode::EscapedTemplateKey,
                key_path_string(path, key),
                message,
            ).with_step(task_id);
            push_issue(issues, issue);
        }
        let ghost after_escape = issues_view(issues@);
        match find_previous_emitter(entries, j, out) {
            Some(other) => {
                let mut message = owned("'");
                push_str(&mut message, other);
                push_str(&mut message, "' and '");
                push_str(&mut message, key);
                push_str(&mut message, "' both emit the key '");
                push_str(&mut message, out);
                push_str(
                    &mut message,
                    "', so this object would carry it twice — later reads see only the first while serialization emits both",
                );
                let issue = WorkflowIssue::at(
                    IssueCode::DuplicateTemplateKey,
                    key_path_string(path, key),
                    message,
                ).with_step(task_id);
                push_issue(issues, issue);
            },
            None => {},
        }
        assert(issues_view(issues@) =~= mid + one_key_issues(keys, j as int, path@, id));
        j = j + 1;
    }
}

/// Append every template-key finding under `value`, which sits at `path`.
fn walk_template_keys(value: &Json, path: &str, task_id: Option<&str>, issues: &mut Vec<WorkflowIssue>)
    ensures
        issues_view(final(issues)@) == issues_view(old(issues)@) + template_issues(
            *value,
            path@,
            opt_str(task_id),
        ),
    decreases value,
{
    let ghost start = issues_view(issues@);
    let ghost id = opt_str(task_id);
    match value {
        Json::Array(items) => {
            let mut k: usize = 0;
            assert(items@.subrange(0, 0) =~= Seq::<Json>::empty());
            assert(issues_view(issues@) =~= start + items_template_issues(
                items@.subrange(0, 0),
                path@,
                id,
            ));
            while k < items.len()
                invariant
                    k <= items@.len(),
                    *value == Json::Array(*items),
                    id == opt_str(task_id),
                    issues_view(issues@) == start + items_template_issues(
                        items@.subrange(0, k as int),
                        path@,
                        id,
                    ),
                decreases items@.len() - k,
            {
                assert(decreases_to!(*value => value->Array_0));
                assert(decreases_to!(value->Array_0 => value->Array_0@));
                assert(decreases_to!(items@ => items@[k as int]));
                let child_path = element_path_string(path, k);
                walk_template_keys(&items[k], child_path.as_str(), task_id, issues);
                let ghost next = items@.subrange(0, k + 1);
                assert(next.subrange(0, k as int) =~= items@.subrange(0, k as int));
                assert(next[k as int] == items@[k as int]);
                assert(issues_view(issues@) =~= start + items_template_issues(next, path@, id));
                k = k + 1;
            }
            assert(items@.subrange(0, items@.len() as int) =~= items@);
        },
        Json::Object(entries) => {
            report_escaped_and_duplicate_keys(entries, path, task_id, issues);
            let ghost head = issues_view(issues@);
            let mut k: usize = 0;
            assert(entries@.subrange(0, 0) =~= Seq::<(String, Json)>::empty());
            assert(issues_view(issues@) =~= head + entries_template_issues(
                entries@.subrange(0, 0),
                path@,
                id,
            ));
            while k < entries.len()
                invariant
                    k <= entries@.len(),
                    *value == Json::Object(*entries),
                    id == opt_str(task_id),
                    issues_view(issues@) == head + entries_template_issues(
                        entries@.subrange(0, k as int),
                        path@,
                        id,
                    ),
                decreases entries@.len() - k,
            {
                assert(decreases_to!(*value => value->Object_0));
                assert(decreases_to!(value->Object_0 => value->Object_0@));
                assert(decreases_to!(entries@ => entries@[k as int]));
                assert(decreases_to!(entries@[k as int] => entries@[k as int].1));
                let child_path = key_path_string(path, entries[k].0.as_str());
                walk_template_keys(&entries[k].1, child_path.as_str(), task_id, issues);
                let ghost next = entries@.subrange(0, k + 1);
                assert(next.subrange(0, k as int) =~= entries@.subrange(0, k as int));
                assert(next[k as int] == entries@[k as int]);
                assert(issues_view(issues@) =~= head + entries_template_issues(next, path@, id));
                k = k + 1;
            }
            assert(entries@.subrange(0, entries@.len() as int) =~= entries@);
            assert(issues_view(issues@) =~= start + template_issues(*value, path@, id));
        },
        _ => {
            assert(issues_view(issues@) =~= start + template_issues(*value, path@, id));
        },
    }
}

/// Check every expression of an authored workflow for object keys the
/// template-key escape makes significant: colliding keys (fatal) and escaped
/// keys (informational). A custom task's raw input is a config document, not
/// an expression, and is not searched.
pub fn check_template_keys(workflow: &Json) -> (issues: Vec<WorkflowIssue>)
    ensures
        issues_view(issues@) == workflow_key_issues(*workflow),
{
    let exprs = for_each_expression(workflow);
    let ghost es = exprs_view(exprs@);
    let mut issues: Vec<WorkflowIssue> = Vec::new();
    let mut k: usize = 0;
    assert(issues_view(issues@) =~= Seq::<IssueView>::empty());
    while k < exprs.len()
        invariant
            k <= exprs@.len(),
            es == exprs_view(exprs@),
            es.len() == exprs@.len(),
            issues_view(issues@) == exprs_key_issues(es, k as int),
        decreases exprs@.len() - k,
    {
        let e = &exprs[k];
        assert(es[k as int] == e.view_expr());
        let ghost before = issues_view(issues@);
        if e.sink != Sink::Input {
            walk_template_keys(e.value, e.field.as_str(), e.task_id, &mut issues);
        }
        assert(issues_view(issues@) =~= exprs_key_issues(es, k + 1));
        k = k + 1;
    }
    issues
}

/// The fatal subset of [`check_template_keys`]: the colliding keys, which an
/// engine build refuses.
pub fn refusing_template_key_issues(workflow: &Json) -> (issues: Vec<WorkflowIssue>)
    ensures
        issues_view(issues@) == workflow_key_issues(*workflow).filter(|i: IssueView| is_duplicate(i)),
{
    let all = check_template_keys(workflow);
    let ghost v = issues_view(all@);
    let ghost pred = |i: IssueView| is_duplicate(i);
    let mut issues: Vec<WorkflowIssue> = Vec::new();
    assert(v.take(0) =~= Seq::<IssueView>::empty());
    assert(issues_view(issues@) =~= v.take(0).filter(pred)) by {
        reveal(Seq::filter);
    }
    for k in 0..all.len()
        invariant
            v == issues_view(all@),
            v.len() == all@.len(),
            pred == (|i: IssueView| is_duplicate(i)),
            issues_view(issues@) == v.take(k as int).filter(pred),
    {
        let issue = &all[k];
        assert(v[k as int] == issue.view_issue());
        assert(v.take(k + 1).drop_last() =~= v.take(k as int));
        assert(v.take(k + 1).last() == issue.view_issue());
        assert(v.take(k + 1).filter(pred) == if pred(issue.view_issue()) {
            v.take(k as int).filter(pred).push(issue.view_issue())
        } else {
            v.take(k as int).filter(pred)
        }) by {
            reveal(Seq::filter);
        }
        if issue.code == IssueCode::DuplicateTemplateKey {
            push_issue(&mut issues, issue.copied());
        }
    }
    assert(v.take(v.len() as int) =~= v);
    issues
}

} // verus!

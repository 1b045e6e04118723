//! The authored step grammar: how a workflow's `tasks` array is read.
//!
//! An element of `tasks` is either a task or a task group (an element with a
//! `tasks` key of its own). [`walk_authored_steps`] walks the *authored*
//! document, never fails, and yields every node with the coordinate the author
//! typed — `tasks[1].tasks[0]` — so a validator can point at the offending
//! element and collect every violation in one pass.

use vstd::prelude::*;
use crate::json::Json;
use crate::text::{decimal, push_char, push_decimal, push_str};

verus! {

/// Maximum group nesting the parser accepts.
///
/// Depth counts *enclosing groups*: a top-level group is at depth 0, so
/// groups are accepted at depths `0..MAX_GROUP_DEPTH`, and a group at
/// `MAX_GROUP_DEPTH` is reported as [`StepKind::TooDeep`].
pub const MAX_GROUP_DEPTH: usize = 8;

/// Whether this authored step element is a task group.
///
/// The test is **presence of a `tasks` key, nothing else**: a `tasks` key
/// holding a non-array is still a group, and a malformed one. An element
/// carrying neither `tasks` nor `function` is not a group.
pub open spec fn spec_is_group(step: Json) -> bool {
    step.field("tasks"@) is Some
}

/// Whether this authored step element is a task group.
pub fn is_group(step: &Json) -> (r: bool)
    ensures
        r == spec_is_group(*step),
{
    step.get("tasks").is_some()
}

/// What an authored step element is.
#[derive(Debug, Clone, Copy, PartialEq, Eq, Structural)]
pub enum StepKind {
    /// A task — or an element malformed enough that it is not a group either.
    Leaf,
    /// A task group. Its members follow it in the walk.
    Group,
    /// A group nested at or beyond [`MAX_GROUP_DEPTH`]. The walker reports it
    /// and does not descend.
    TooDeep,
}

/// One node of an authored `tasks` tree.
#[derive(Debug)]
pub struct AuthoredStep<'a> {
    /// The coordinate the author typed, rooted at the workflow: `tasks[1]`,
    /// `tasks[1].tasks[0]`.
    pub path: String,
    /// The element itself, borrowed from the input.
    pub node: &'a Json,
    /// Whether this is a task, a group, or a group too deeply nested.
    pub kind: StepKind,
    /// Enclosing groups. `0` for a top-level element.
    pub depth: usize,
}

/// A walked node as plain values: path, element, kind, depth.
pub type StepView = (Seq<char>, Json, StepKind, nat);

impl<'a> AuthoredStep<'a> {
    pub open spec fn view_step(self) -> StepView {
        (self.path@, *self.node, self.kind, self.depth as nat)
    }
}

/// The steps of a walked list, as plain values.
pub open spec fn steps_view<'a>(steps: Seq<AuthoredStep<'a>>) -> Seq<StepView> {
    steps.map_values(|s: AuthoredStep<'a>| s.view_step())
}

/// The members of a group node, when its `tasks` is an array.
pub open spec fn group_members(node: Json) -> Option<Seq<Json>> {
    match node.field("tasks"@) {
        Some(t) => t.items(),
        None => None,
    }
}

/// The path of element `i` of an array whose elements hang off `prefix`.
pub open spec fn element_path(prefix: Seq<char>, i: nat) -> Seq<char> {
    prefix + seq!['['] + decimal(i) + seq![']']
}

/// Room left below the depth cap; the walk's recursion measure.
pub open spec fn depth_room(depth: nat) -> nat {
    if depth <= 9 {
        (9 - depth) as nat
    } else {
        0
    }
}

/// The walk of one element at `path` and `depth`, pre-order: the element,
/// then (for a group below the cap with an array of members) its members.
pub open spec fn node_walk(node: Json, path: Seq<char>, depth: nat) -> Seq<StepView>
    decreases depth_room(depth), 0nat,
{
    if !spec_is_group(node) {
        seq![(path, node, StepKind::Leaf, depth)]
    } else if depth >= MAX_GROUP_DEPTH {
        seq![(path, node, StepKind::TooDeep, depth)]
    } else {
        seq![(path, node, StepKind::Group, depth)] + match group_members(node) {
            Some(members) => items_walk(members, 0, path + ".tasks"@, depth + 1),
            None => Seq::empty(),
        }
    }
}

/// The walk of `items[from..]`, each element hanging off `prefix`.
pub open spec fn items_walk(items: Seq<Json>, from: nat, prefix: Seq<char>, depth: nat) -> Seq<
    StepView,
>
    decreases depth_room(depth), items.len() - from,
{
    if from >= items.len() {
        Seq::empty()
    } else {
        node_walk(items[from as int], element_path(prefix, from), depth) + items_walk(
            items,
            from + 1,
            prefix,
            depth,
        )
    }
}

/// The whole walk of an authored `tasks` value: nothing when it is not an
/// array.
pub open spec fn authored_walk(tasks: Json) -> Seq<StepView> {
    match tasks.items() {
        Some(items) => items_walk(items, 0, "tasks"@, 0),
        None => Seq::empty(),
    }
}

proof fn lemma_steps_view_push<'a>(steps: Seq<AuthoredStep<'a>>, s: AuthoredStep<'a>)
    ensures
        steps_view(steps.push(s)) == steps_view(steps).push(s.view_step()),
{
    assert(steps_view(steps.push(s)) =~= steps_view(steps).push(s.view_step()));
}

/// Append the walk of one element to `out`.
fn walk_node<'a>(
    node: &'a Json,
    path: String,
    depth: usize,
    out: &mut Vec<AuthoredStep<'a>>,
)
    requires
        depth <= MAX_GROUP_DEPTH,
    ensures
        steps_view(final(out)@) == steps_view(old(out)@) + node_walk(*node, path@, depth as nat),
    decreases depth_room(depth as nat), 0nat,
{
    let ghost before = out@;
    let ghost path_view = path@;
    if !is_group(node) {
        let step = AuthoredStep { path, node, kind: StepKind::Leaf, depth };
        out.push(step);
        proof {
            lemma_steps_view_push(before, step);
            assert(node_walk(*node, path_view, depth as nat) =~= seq![step.view_step()]);
        }
        return;
    }
    if depth >= MAX_GROUP_DEPTH {
        let step = AuthoredStep { path, node, kind: StepKind::TooDeep, depth };
        out.push(step);
        proof {
            lemma_steps_view_push(before, step);
            assert(node_walk(*node, path_view, depth as nat) =~= seq![step.view_step()]);
        }
        return;
    }
    let mut prefix = path.clone();
    push_str(&mut prefix, ".tasks");
    let step = AuthoredStep { path, node, kind: StepKind::Group, depth };
    out.push(step);
    proof {
        lemma_steps_view_push(before, step);
    }
    let ghost mid = out@;
    match node.get("tasks") {
        Some(t) => match t.as_array() {
            Some(members) => {
                walk_items(members, 0, &prefix, depth + 1, out);
                assert(steps_view(out@) =~= steps_view(before) + node_walk(
                    *node,
                    path_view,
                    depth as nat,
                ));
            },
            None => {
                assert(steps_view(out@) =~= steps_view(before) + node_walk(
                    *node,
                    path_view,
                    depth as nat,
                ));
            },
        },
        None => {},
    }
}

/// Append the walk of `items[from..]`, each element hanging off `prefix`.
fn walk_items<'a>(
    items: &'a Vec<Json>,
    from: usize,
    prefix: &String,
    depth: usize,
    out: &mut Vec<AuthoredStep<'a>>,
)
    requires
        depth <= MAX_GROUP_DEPTH,
        from <= items@.len(),
    ensures
        steps_view(final(out)@) == steps_view(old(out)@) + items_walk(
            items@,
            from as nat,
            prefix@,
            depth as nat,
        ),
    decreases depth_room(depth as nat), items@.len() - from,
{
    if from >= items.len() {
        assert(steps_view(out@) =~= steps_view(out@) + items_walk(
            items@,
            from as nat,
            prefix@,
            depth as nat,
        ));
        return;
    }
    let ghost before = out@;
    let mut path = prefix.clone();
    push_char(&mut path, '[');
    push_decimal(&mut path, from as u64);
    push_char(&mut path, ']');
    assert(path@ =~= element_path(prefix@, from as nat));
    walk_node(&items[from], path, depth, out);
    let ghost mid = out@;
    walk_items(items, from + 1, prefix, depth, out);
    assert(steps_view(out@) =~= steps_view(before) + items_walk(
        items@,
        from as nat,
        prefix@,
        depth as nat,
    ));
}

/// Walk an authored `tasks` array, yielding every node with its path.
///
/// Traversal is document order, pre-order: a group is yielded before its
/// members, so filtering to [`StepKind::Leaf`] gives the tasks in the order
/// the engine flattens them. The walk never fails: an empty group, a
/// malformed group and an over-deep group are all yielded, so a validator can
/// collect every violation in one pass. A `tasks` value that is not an array
/// yields nothing.
pub fn walk_authored_steps(tasks: &Json) -> (steps: Vec<AuthoredStep<'_>>)
    ensures
        steps_view(steps@) == authored_walk(*tasks),
{
    let mut out: Vec<AuthoredStep<'_>> = Vec::new();
    match tasks.as_array() {
        Some(items) => {
            let prefix = crate::text::owned("tasks");
            assert(steps_view(out@) =~= Seq::<StepView>::empty());
            walk_items(items, 0, &prefix, 0, &mut out);
            assert(steps_view(out@) =~= authored_walk(*tasks));
        },
        None => {
            assert(steps_view(out@) =~= authored_walk(*tasks));
        },
    }
    out
}

} // verus!

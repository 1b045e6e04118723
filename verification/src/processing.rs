//! What the engine stamps on every message it processes, and how it names a
//! function nothing dispatches.

use vstd::prelude::*;
use crate::config::{BUILTIN_FUNCTION_NAMES, Registry, builtin_names, lemma_builtin_array};
use crate::error::DataflowError;
use crate::json::{Json, JsonView, entries_view, lemma_entries_view_index, lemma_entries_view_len};
use crate::order::{name_order, names_view, sort_names};
use crate::text::{owned, push_str, str_eq};

verus! {

/// The first index under `key` among viewed entries, or their length.
pub open spec fn kv_index(kvs: Seq<(Seq<char>, JsonView)>, key: Seq<char>) -> int
    decreases kvs.len(),
{
    if kvs.len() == 0 {
        0
    } else if kvs[0].0 == key {
        0
    } else {
        1 + kv_index(kvs.drop_first(), key)
    }
}

proof fn lemma_kv_index(kvs: Seq<(Seq<char>, JsonView)>, key: Seq<char>)
    ensures
        0 <= kv_index(kvs, key) <= kvs.len(),
        kv_index(kvs, key) < kvs.len() ==> kvs[kv_index(kvs, key)].0 == key,
        forall|j: int| 0 <= j < kv_index(kvs, key) ==> kvs[j].0 != key,
    decreases kvs.len(),
{
    if kvs.len() > 0 && kvs[0].0 != key {
        lemma_kv_index(kvs.drop_first(), key);
        assert forall|j: int| 0 <= j < kv_index(kvs, key) implies kvs[j].0 != key by {
            if j > 0 {
                assert(kvs[j] == kvs.drop_first()[j - 1]);
            }
        }
    }
}

/// Entries with `key` set to `value`: the first pair under `key` takes the
/// value in place, or the pair is appended when there is none.
pub open spec fn kv_set(kvs: Seq<(Seq<char>, JsonView)>, key: Seq<char>, value: JsonView) -> Seq<
    (Seq<char>, JsonView),
> {
    let i = kv_index(kvs, key);
    if i < kvs.len() {
        kvs.update(i, (key, value))
    } else {
        kvs.push((key, value))
    }
}

/// A metadata object's entries with the processing stamp set:
/// `processed_at`, `engine_version`, and `channel` when there is one.
pub open spec fn stamp_entries(
    meta: Seq<(Seq<char>, JsonView)>,
    version: JsonView,
    now: Seq<char>,
    channel: Option<Seq<char>>,
) -> Seq<(Seq<char>, JsonView)> {
    let m = kv_set(kv_set(meta, "processed_at"@, JsonView::Str(now)), "engine_version"@, version);
    match channel {
        Some(c) => kv_set(m, "channel"@, JsonView::Str(c)),
        None => m,
    }
}

/// A context with the processing stamp set in its `metadata`: created when
/// missing; a context or a `metadata` that is not an object is left as it
/// is.
pub open spec fn stamped(
    context: JsonView,
    version: JsonView,
    now: Seq<char>,
    channel: Option<Seq<char>>,
) -> JsonView {
    match context {
        JsonView::Object(top) => {
            let i = kv_index(top, "metadata"@);
            if i < top.len() {
                match top[i].1 {
                    JsonView::Object(meta) => JsonView::Object(
                        top.update(
                            i,
                            ("metadata"@, JsonView::Object(stamp_entries(meta, version, now, channel))),
                        ),
                    ),
                    _ => context,
                }
            } else {
                JsonView::Object(
                    top.push(
                        (
                            "metadata"@,
                            JsonView::Object(stamp_entries(Seq::empty(), version, now, channel)),
                        ),
                    ),
                )
            }
        },
        _ => context,
    }
}

/// The view of an optional string slice.
pub open spec fn opt_chars(s: Option<&str>) -> Option<Seq<char>> {
    match s {
        Some(t) => Some(t@),
        None => None,
    }
}

proof fn lemma_entries_view_is_pointwise(entries: Seq<(String, Json)>)
    ensures
        entries_view(entries) == entries.map_values(
            |e: (String, Json)| (e.0@, e.1.view_json()),
        ),
{
    lemma_entries_view_len(entries);
    assert forall|i: int| 0 <= i < entries.len() implies entries_view(entries)[i] == (
    entries[i].0@, entries[i].1.view_json()) by {
        lemma_entries_view_index(entries, i);
    }
    assert(entries_view(entries) =~= entries.map_values(
        |e: (String, Json)| (e.0@, e.1.view_json()),
    ));
}

/// Index of the first pair under `key`, or the number of pairs.
fn position(entries: &Vec<(String, Json)>, key: &str) -> (r: usize)
    ensures
        r == kv_index(entries_view(entries@), key@),
{
    proof {
        lemma_entries_view_is_pointwise(entries@);
        lemma_kv_index(entries_view(entries@), key@);
    }
    let ghost kvs = entries_view(entries@);
    let mut i: usize = 0;
    while i < entries.len()
        invariant
            i <= entries@.len(),
            kvs == entries_view(entries@),
            kvs.len() == entries@.len(),
            kvs == entries@.map_values(|e: (String, Json)| (e.0@, e.1.view_json())),
            forall|j: int| 0 <= j < i ==> kvs[j].0 != key@,
            0 <= kv_index(kvs, key@) <= kvs.len(),
            kv_index(kvs, key@) < kvs.len() ==> kvs[kv_index(kvs, key@)].0 == key@,
            forall|j: int| 0 <= j < kv_index(kvs, key@) ==> kvs[j].0 != key@,
        decreases entries@.len() - i,
    {
        assert(kvs[i as int].0 == entries@[i as int].0@);
        if str_eq(entries[i].0.as_str(), key) {
            return i;
        }
        i = i + 1;
    }
    i
}

/// Set `key` to `value`: in place in the first pair under `key`, or as a new
/// pair at the end.
fn set_key(entries: &mut Vec<(String, Json)>, key: &str, value: Json)
    ensures
        entries_view(final(entries)@) == kv_set(entries_view(old(entries)@), key@, value.view_json()),
{
    proof {
        lemma_entries_view_is_pointwise(old(entries)@);
    }
    let i = position(entries, key);
    let ghost before = entries@;
    if i < entries.len() {
        entries.set(i, (owned(key), value));
    } else {
        entries.push((owned(key), value));
    }
    proof {
        lemma_entries_view_is_pointwise(entries@);
        assert(entries_view(entries@) =~= kv_set(entries_view(before), key@, value.view_json()));
    }
}

/// Set the processing stamp in a metadata object's entries.
fn stamp(entries: &mut Vec<(String, Json)>, engine_version: &Json, now: &str, channel: Option<&str>)
    ensures
        entries_view(final(entries)@) == stamp_entries(
            entries_view(old(entries)@),
            engine_version.view_json(),
            now@,
            opt_chars(channel),
        ),
{
    set_key(entries, "processed_at", Json::Str(owned(now)));
    set_key(entries, "engine_version", engine_version.copy());
    match channel {
        Some(c) => set_key(entries, "channel", Json::Str(owned(c))),
        None => {},
    }
}

/// Stamp the processing metadata (`processed_at`, `engine_version`, and
/// `channel` when there is one) into a message context, in one pass over
/// its `metadata`. A missing `metadata` is created; a context or a
/// `metadata` that is not an object is left as it is.
pub fn set_processing_metadata(
    context: &mut Json,
    engine_version: &Json,
    now: &str,
    channel: Option<&str>,
)
    ensures
        final(context).view_json() == stamped(
            old(context).view_json(),
            engine_version.view_json(),
            now@,
            opt_chars(channel),
        ),
{
    let mut taken = Json::Null;
    std::mem::swap(&mut taken, context);
    match taken {
        Json::Object(mut top) => {
            let ghost top0 = top@;
            let i = position(&top, "metadata");
            if i < top.len() {
                let (key, meta) = top.remove(i);
                proof {
                    lemma_entries_view_is_pointwise(top0);
                    lemma_kv_index(entries_view(top0), "metadata"@);
                    assert(entries_view(top0)[i as int].0 == top0[i as int].0@);
                }
                assert(key@ == "metadata"@);
                match meta {
                    Json::Object(mut m) => {
                        let ghost m0 = m@;
                        stamp(&mut m, engine_version, now, channel);
                        top.insert(i, (key, Json::Object(m)));
                        proof {
                            lemma_entries_view_is_pointwise(top@);
                            assert(top@ =~= top0.update(i as int, (key, Json::Object(m))));
                            assert(entries_view(top@) =~= entries_view(top0).update(
                                i as int,
                                (
                                    "metadata"@,
                                    JsonView::Object(
                                        stamp_entries(
                                            entries_view(m0),
                                            engine_version.view_json(),
                                            now@,
                                            opt_chars(channel),
                                        ),
                                    ),
                                ),
                            ));
                        }
                        *context = Json::Object(top);
                    },
                    other => {
                        top.insert(i, (key, other));
                        assert(top@ =~= top0);
                        *context = Json::Object(top);
                    },
                }
            } else {
                let mut m: Vec<(String, Json)> = Vec::new();
                assert(entries_view(m@) =~= Seq::<(Seq<char>, JsonView)>::empty());
                stamp(&mut m, engine_version, now, channel);
                let ghost mv = m@;
                top.push((owned("metadata"), Json::Object(m)));
                proof {
                    lemma_entries_view_is_pointwise(top0);
                    lemma_entries_view_is_pointwise(top@);
                    assert(entries_view(top@) =~= entries_view(top0).push(
                        ("metadata"@, Json::Object(m).view_json()),
                    ));
                }
                *context = Json::Object(top);
            }
        },
        other => {
            *context = other;
        },
    }
}

/// Names joined with `sep` between each two.
pub open spec fn joined(names: Seq<Seq<char>>, sep: Seq<char>) -> Seq<char>
    decreases names.len(),
{
    if names.len() == 0 {
        Seq::empty()
    } else if names.len() == 1 {
        names[0]
    } else {
        joined(names.drop_last(), sep) + sep + names.last()
    }
}

/// What a function nothing dispatches is reported as: its name, the
/// registered handlers in name order (`none` when there are none), and the
/// built-ins.
pub open spec fn not_found_message(name: Seq<char>, registered: Seq<Seq<char>>) -> Seq<char> {
    name + " (registered handlers: "@ + (if registered.len() == 0 {
        "none"@
    } else {
        joined(registered.sort_by(name_order()), ", "@)
    }) + "; built-ins: "@ + joined(builtin_names(), ", "@) + ")"@
}

/// Append `names` joined with `, ` to `out`.
fn push_joined(out: &mut String, names: &Vec<&String>)
    ensures
        final(out)@ == old(out)@ + joined(names_view(names@), ", "@),
{
    let ghost start = out@;
    let ghost v = names_view(names@);
    let mut i: usize = 0;
    assert(v.take(0) =~= Seq::<Seq<char>>::empty());
    assert(out@ =~= start + joined(v.take(0), ", "@));
    while i < names.len()
        invariant
            i <= names@.len(),
            v == names_view(names@),
            v.len() == names@.len(),
            out@ == start + joined(v.take(i as int), ", "@),
        decreases names@.len() - i,
    {
        if i > 0 {
            push_str(out, ", ");
        }
        push_str(out, names[i].as_str());
        assert(v.take(i + 1).drop_last() =~= v.take(i as int));
        assert(v.take(i + 1).last() == names@[i as int]@);
        assert(out@ =~= start + joined(v.take(i + 1), ", "@));
        i = i + 1;
    }
    assert(v.take(names@.len() as int) =~= v);
}

/// Append the built-in names joined with `, ` to `out`.
fn push_builtin_names(out: &mut String)
    ensures
        final(out)@ == old(out)@ + joined(builtin_names(), ", "@),
{
    proof {
        lemma_builtin_array();
    }
    let ghost start = out@;
    let ghost v = builtin_names();
    let mut i: usize = 0;
    assert(v.take(0) =~= Seq::<Seq<char>>::empty());
    assert(out@ =~= start + joined(v.take(0), ", "@));
    while i < 12
        invariant
            i <= 12,
            v == builtin_names(),
            v.len() == 12,
            BUILTIN_FUNCTION_NAMES@.len() == 12,
            forall|j: int| 0 <= j < 12 ==> BUILTIN_FUNCTION_NAMES@[j]@ == builtin_names()[j],
            out@ == start + joined(v.take(i as int), ", "@),
        decreases 12 - i,
    {
        if i > 0 {
            push_str(out, ", ");
        }
        push_str(out, BUILTIN_FUNCTION_NAMES[i]);
        assert(v.take(i + 1).drop_last() =~= v.take(i as int));
        assert(v.take(i + 1).last() == BUILTIN_FUNCTION_NAMES@[i as int]@);
        assert(out@ =~= start + joined(v.take(i + 1), ", "@));
        i = i + 1;
    }
    assert(v.take(12) =~= v);
}

/// The error for a function that no handler dispatches: its name, the
/// registered handlers in name order, and the built-ins.
pub fn function_not_found_error(name: &str, handlers: &Registry) -> (e: DataflowError)
    ensures
        e matches DataflowError::FunctionNotFound(m) && m@ == not_found_message(
            name@,
            handlers.names_view(),
        ),
{
    let keys = handlers.keys();
    let mut refs: Vec<&String> = Vec::new();
    let mut i: usize = 0;
    while i < keys.len()
        invariant
            i <= keys@.len(),
            refs@.len() == i,
            forall|j: int| 0 <= j < i ==> #[trigger] refs@[j]@ == keys@[j]@,
        decreases keys@.len() - i,
    {
        refs.push(&keys[i]);
        i = i + 1;
    }
    assert(names_view(refs@) =~= handlers.names_view());
    let sorted = sort_names(refs);
    let mut m = owned(name);
    push_str(&mut m, " (registered handlers: ");
    if sorted.len() == 0 {
        push_str(&mut m, "none");
        proof {
            vstd::seq_lib::to_multiset_len(names_view(sorted@));
            vstd::seq_lib::to_multiset_len(handlers.names_view());
        }
    } else {
        push_joined(&mut m, &sorted);
        proof {
            vstd::seq_lib::to_multiset_len(names_view(sorted@));
            vstd::seq_lib::to_multiset_len(handlers.names_view());
        }
    }
    push_str(&mut m, "; built-ins: ");
    push_builtin_names(&mut m);
    push_str(&mut m, ")");
    assert(m@ =~= not_found_message(name@, handlers.names_view()));
    DataflowError::FunctionNotFound(m)
}

} // verus!

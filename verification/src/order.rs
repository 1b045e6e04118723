//! The order of names: lexicographic by character, which is the order of
//! their UTF-8 bytes, and the order a sorted map walks its keys in.

use vstd::prelude::*;
use vstd::relations::{sorted_by, total_ordering};
use crate::json::Json;
use crate::secrets::entry_keys;

verus! {

/// `a` sorts no later than `b`: character by character, a proper prefix
/// first.
pub open spec fn lex_le(a: Seq<char>, b: Seq<char>) -> bool
    decreases a.len(),
{
    if a.len() == 0 {
        true
    } else if b.len() == 0 {
        false
    } else if a[0] != b[0] {
        (a[0] as int) < (b[0] as int)
    } else {
        lex_le(a.drop_first(), b.drop_first())
    }
}

/// The name order as a relation.
pub open spec fn name_order() -> spec_fn(Seq<char>, Seq<char>) -> bool {
    |a: Seq<char>, b: Seq<char>| lex_le(a, b)
}

proof fn lemma_lex_reflexive(a: Seq<char>)
    ensures
        lex_le(a, a),
    decreases a.len(),
{
    if a.len() > 0 {
        lemma_lex_reflexive(a.drop_first());
    }
}

proof fn lemma_lex_antisymmetric(a: Seq<char>, b: Seq<char>)
    requires
        lex_le(a, b),
        lex_le(b, a),
    ensures
        a == b,
    decreases a.len(),
{
    if a.len() == 0 {
        assert(b.len() == 0);
        assert(a =~= b);
    } else {
        assert(b.len() > 0);
        assert(a[0] == b[0]);
        lemma_lex_antisymmetric(a.drop_first(), b.drop_first());
        assert(a.drop_first() == b.drop_first());
        assert(a.len() == b.len());
        assert forall|i: int| 0 <= i < a.len() implies a[i] == b[i] by {
            if i > 0 {
                assert(a[i] == a.drop_first()[i - 1]);
                assert(b[i] == b.drop_first()[i - 1]);
            }
        }
        assert(a =~= b);
    }
}

proof fn lemma_lex_transitive(a: Seq<char>, b: Seq<char>, c: Seq<char>)
    requires
        lex_le(a, b),
        lex_le(b, c),
    ensures
        lex_le(a, c),
    decreases a.len(),
{
    if a.len() > 0 && b.len() > 0 && c.len() > 0 && a[0] == b[0] && b[0] == c[0] {
        lemma_lex_transitive(a.drop_first(), b.drop_first(), c.drop_first());
    }
}

proof fn lemma_lex_connected(a: Seq<char>, b: Seq<char>)
    ensures
        lex_le(a, b) || lex_le(b, a),
    decreases a.len(),
{
    if a.len() > 0 && b.len() > 0 && a[0] == b[0] {
        lemma_lex_connected(a.drop_first(), b.drop_first());
    }
}

/// The name order is a total order.
pub proof fn lemma_name_order_total()
    ensures
        total_ordering(name_order()),
{
    let r = name_order();
    assert forall|x: Seq<char>| #[trigger] r(x, x) by {
        lemma_lex_reflexive(x);
    }
    assert forall|x: Seq<char>, y: Seq<char>| #[trigger] r(x, y) && #[trigger] r(y, x) implies x
        == y by {
        lemma_lex_antisymmetric(x, y);
    }
    assert forall|x: Seq<char>, y: Seq<char>, z: Seq<char>|
        #[trigger] r(x, y) && #[trigger] r(y, z) implies r(x, z) by {
        lemma_lex_transitive(x, y, z);
    }
    assert forall|x: Seq<char>, y: Seq<char>| #[trigger] r(x, y) || #[trigger] r(y, x) by {
        lemma_lex_connected(x, y);
    }
}

/// `a` and `b` agree before position `k`, and there `a` has the smaller
/// character.
pub open spec fn first_difference_smaller(a: Seq<char>, b: Seq<char>, k: int) -> bool {
    &&& 0 <= k < a.len()
    &&& k < b.len()
    &&& a.take(k) == b.take(k)
    &&& (a[k] as int) < (b[k] as int)
}

/// The name order is the lexicographic order of characters: `a` sorts no
/// later than `b` exactly when `a` is a prefix of `b`, or at the first
/// position where they differ `a` has the smaller character.
pub proof fn lemma_name_order_is_lexicographic(a: Seq<char>, b: Seq<char>)
    ensures
        lex_le(a, b) <==> (a.is_prefix_of(b) || exists|k: int|
            #[trigger] first_difference_smaller(a, b, k)),
    decreases a.len(),
{
    if a.len() == 0 {
        assert(a =~= b.subrange(0, 0));
    } else if b.len() == 0 {
        assert(!a.is_prefix_of(b));
        assert forall|k: int| !#[trigger] first_difference_smaller(a, b, k) by {}
    } else if a[0] != b[0] {
        assert(!a.is_prefix_of(b)) by {
            if a.is_prefix_of(b) {
                assert(a[0] == b.subrange(0, a.len() as int)[0]);
            }
        }
        assert forall|k: int| #[trigger] first_difference_smaller(a, b, k) implies k == 0 by {
            if k > 0 {
                assert(a.take(k)[0] == b.take(k)[0]);
            }
        }
        if (a[0] as int) < (b[0] as int) {
            assert(a.take(0) =~= b.take(0));
            assert(first_difference_smaller(a, b, 0));
        }
    } else {
        let a1 = a.drop_first();
        let b1 = b.drop_first();
        lemma_name_order_is_lexicographic(a1, b1);
        assert(a.is_prefix_of(b) <==> a1.is_prefix_of(b1)) by {
            if a.is_prefix_of(b) {
                assert(a1 =~= b1.subrange(0, a1.len() as int)) by {
                    assert forall|i: int| 0 <= i < a1.len() implies a1[i] == b1.subrange(
                        0,
                        a1.len() as int,
                    )[i] by {
                        assert(a[i + 1] == b.subrange(0, a.len() as int)[i + 1]);
                    }
                }
            }
            if a1.is_prefix_of(b1) {
                assert(a =~= b.subrange(0, a.len() as int)) by {
                    assert forall|i: int| 0 <= i < a.len() implies a[i] == b.subrange(
                        0,
                        a.len() as int,
                    )[i] by {
                        if i > 0 {
                            assert(a1[i - 1] == b1.subrange(0, a1.len() as int)[i - 1]);
                        }
                    }
                }
            }
        }
        assert((exists|k: int| #[trigger] first_difference_smaller(a, b, k)) <==> (exists|k: int|
            #[trigger] first_difference_smaller(a1, b1, k))) by {
            if exists|k: int| #[trigger] first_difference_smaller(a, b, k) {
                let k = choose|k: int| #[trigger] first_difference_smaller(a, b, k);
                assert(k != 0);
                assert(a1.take(k - 1) =~= b1.take(k - 1)) by {
                    assert forall|i: int| 0 <= i < k - 1 implies #[trigger] a1.take(k - 1)[i]
                        == b1.take(k - 1)[i] by {
                        assert(a.take(k)[i + 1] == b.take(k)[i + 1]);
                    }
                }
                assert(first_difference_smaller(a1, b1, k - 1));
            }
            if exists|k: int| #[trigger] first_difference_smaller(a1, b1, k) {
                let k = choose|k: int| #[trigger] first_difference_smaller(a1, b1, k);
                assert(a.take(k + 1) =~= b.take(k + 1)) by {
                    assert forall|i: int| 0 <= i < k + 1 implies #[trigger] a.take(k + 1)[i]
                        == b.take(k + 1)[i] by {
                        if i > 0 {
                            assert(a1.take(k)[i - 1] == b1.take(k)[i - 1]);
                        }
                    }
                }
                assert(first_difference_smaller(a, b, k + 1));
            }
        }
    }
}

/// Whether `a` sorts no later than `b`.
pub fn str_le(a: &str, b: &str) -> (r: bool)
    ensures
        r == lex_le(a@, b@),
{
    let n = a.unicode_len();
    let m = b.unicode_len();
    let mut i: usize = 0;
    assert(a@.skip(0) =~= a@);
    assert(b@.skip(0) =~= b@);
    while i < n && i < m
        invariant
            n == a@.len(),
            m == b@.len(),
            i <= n,
            i <= m,
            lex_le(a@, b@) == lex_le(a@.skip(i as int), b@.skip(i as int)),
        decreases n - i,
    {
        let x = a.get_char(i);
        let y = b.get_char(i);
        assert(a@.skip(i as int)[0] == x);
        assert(b@.skip(i as int)[0] == y);
        if x != y {
            return (x as u32) < (y as u32);
        }
        assert(a@.skip(i as int).drop_first() =~= a@.skip(i + 1));
        assert(b@.skip(i as int).drop_first() =~= b@.skip(i + 1));
        i = i + 1;
    }
    i == n
}

/// The views of a list of borrowed names.
pub open spec fn names_view(names: Seq<&String>) -> Seq<Seq<char>> {
    names.map_values(|s: &String| s@)
}

/// Names sorted by the name order. The sort is stable in effect: equal
/// names are equal, so any order of them is the one result.
pub fn sort_names<'a>(names: Vec<&'a String>) -> (r: Vec<&'a String>)
    ensures
        names_view(r@) == names_view(names@).sort_by(name_order()),
        sorted_by(names_view(r@), name_order()),
        names_view(r@).to_multiset() == names_view(names@).to_multiset(),
{
    broadcast use vstd::seq_lib::group_to_multiset_ensures;

    proof {
        lemma_name_order_total();
    }
    let ghost keys = names_view(names@);
    let ghost order = name_order();
    let mut out: Vec<&'a String> = Vec::new();
    let mut i: usize = 0;
    assert(names_view(out@) =~= Seq::<Seq<char>>::empty());
    assert(keys.take(0) =~= Seq::<Seq<char>>::empty());
    while i < names.len()
        invariant
            i <= names@.len(),
            keys == names_view(names@),
            order == name_order(),
            total_ordering(order),
            sorted_by(names_view(out@), order),
            names_view(out@).to_multiset() == keys.take(i as int).to_multiset(),
        decreases names@.len() - i,
    {
        let name: &'a String = names[i];
        let ghost s = names_view(out@);
        let mut p: usize = 0;
        while p < out.len()
            invariant
                p <= out@.len(),
                s == names_view(out@),
                forall|j: int| 0 <= j < p ==> lex_le(#[trigger] s[j], name@),
            ensures
                p <= out@.len(),
                s == names_view(out@),
                forall|j: int| 0 <= j < p ==> lex_le(#[trigger] s[j], name@),
                p < out@.len() ==> !lex_le(s[p as int], name@),
            decreases out@.len() - p,
        {
            if !str_le(out[p].as_str(), name.as_str()) {
                break;
            }
            p = p + 1;
        }
        proof {
            if p < s.len() {
                lemma_lex_connected(s[p as int], name@);
                assert forall|j: int| p <= j < s.len() implies lex_le(name@, #[trigger] s[j]) by {
                    if j > p {
                        assert(order(s[p as int], s[j]));
                        lemma_lex_transitive(name@, s[p as int], s[j]);
                    }
                }
            }
        }
        out.insert(p, name);
        let ghost t = names_view(out@);
        assert(t =~= s.insert(p as int, name@));
        assert(sorted_by(t, order)) by {
            assert forall|a: int, b: int| 0 <= a < b < t.len() implies #[trigger] order(t[a], t[b]) by {
                if b < p {
                    assert(t[a] == s[a] && t[b] == s[b]);
                } else if b == p {
                    assert(t[a] == s[a]);
                } else if a < p {
                    assert(t[a] == s[a] && t[b] == s[b - 1]);
                    lemma_lex_transitive(s[a], name@, s[b - 1]);
                } else if a == p {
                    assert(t[b] == s[b - 1]);
                } else {
                    assert(t[a] == s[a - 1] && t[b] == s[b - 1]);
                }
            }
        }
        assert(keys.take(i + 1) =~= keys.take(i as int).push(keys[i as int]));
        assert(keys[i as int] == name@);
        proof {
            vstd::seq_lib::to_multiset_insert(s, p as int, name@);
            vstd::seq_lib::to_multiset_build(keys.take(i as int), name@);
        }
        i = i + 1;
    }
    proof {
        assert(keys.take(names@.len() as int) =~= keys);
        keys.lemma_sort_by_ensures(order);
        vstd::seq_lib::lemma_sorted_unique(names_view(out@), keys.sort_by(order), order);
    }
    out
}

/// An object's keys, sorted by name.
///
/// Issue order is what a host logs, diffs or asserts on, so the keys of a
/// map-valued field are visited in this order rather than in whatever order
/// the map holds them.
pub fn names_in_order(entries: &Vec<(String, Json)>) -> (r: Vec<&String>)
    ensures
        names_view(r@) == entry_keys(entries@).sort_by(name_order()),
        sorted_by(names_view(r@), name_order()),
        names_view(r@).to_multiset() == entry_keys(entries@).to_multiset(),
{
    let mut keys: Vec<&String> = Vec::new();
    let mut i: usize = 0;
    while i < entries.len()
        invariant
            i <= entries@.len(),
            keys@.len() == i,
            forall|j: int| 0 <= j < i ==> #[trigger] keys@[j]@ == entries@[j].0@,
        decreases entries@.len() - i,
    {
        keys.push(&entries[i].0);
        i = i + 1;
    }
    assert(names_view(keys@) =~= entry_keys(entries@));
    sort_names(keys)
}

} // verus!

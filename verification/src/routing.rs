//! Which workflows a message runs through.
//!
//! Workflows run in priority order, lowest first; workflows of equal priority
//! keep the order they were given in. A message sent to a channel runs
//! through that channel's Active workflows only, in the same order, and a
//! channel with none runs through nothing.

use vstd::prelude::*;
use vstd::relations::{sorted_by, total_ordering};
use crate::text::{owned, str_eq};

verus! {

/// What routing reads of a workflow.
#[derive(Debug)]
pub struct RouteEntry {
    /// Lower runs first.
    pub priority: u32,
    /// The channel the workflow is registered on.
    pub channel: String,
    /// Whether the workflow's status is Active.
    pub active: bool,
}

/// The priorities of a list of workflows.
pub open spec fn priorities(ws: Seq<RouteEntry>) -> Seq<u32> {
    ws.map_values(|w: RouteEntry| w.priority)
}

/// Whether the workflow at position `a` runs no later than the one at `b`:
/// lower priority first, and between equal priorities the earlier position.
pub open spec fn runs_before(ps: Seq<u32>) -> spec_fn(usize, usize) -> bool {
    |a: usize, b: usize| ps[a as int] < ps[b as int] || (ps[a as int] == ps[b as int] && a <= b)
}

/// The positions `0..n`.
pub open spec fn positions(n: nat) -> Seq<usize> {
    Seq::new(n, |i: int| i as usize)
}

/// The positions of the workflows in the order they run.
pub open spec fn priority_order(ps: Seq<u32>) -> Seq<usize> {
    positions(ps.len()).sort_by(runs_before(ps))
}

/// The workflows in the order they run.
pub open spec fn in_priority_order(ws: Seq<RouteEntry>) -> Seq<RouteEntry> {
    priority_order(priorities(ws)).map_values(|j: usize| ws[j as int])
}

/// The run order is a total order on positions.
pub proof fn lemma_runs_before_total(ps: Seq<u32>)
    ensures
        total_ordering(runs_before(ps)),
{
    let r = runs_before(ps);
    assert forall|x: usize, y: usize, z: usize| #[trigger] r(x, y) && #[trigger] r(y, z) implies r(
        x,
        z,
    ) by {}
    assert forall|x: usize, y: usize| #[trigger] r(x, y) && #[trigger] r(y, x) implies x == y by {}
    assert forall|x: usize, y: usize| #[trigger] r(x, y) || #[trigger] r(y, x) by {}
    assert forall|x: usize| #[trigger] r(x, x) by {}
}

/// Put workflows in the order they run: ascending priority, and between
/// equal priorities the order they were given in.
pub fn sort_by_priority(workflows: Vec<RouteEntry>) -> (r: Vec<RouteEntry>)
    ensures
        r@ == in_priority_order(workflows@),
{
    broadcast use vstd::seq_lib::group_to_multiset_ensures;

    let ghost ws = workflows@;
    let ghost ps = priorities(ws);
    let ghost order = runs_before(ps);
    proof {
        lemma_runs_before_total(ps);
    }
    let total: usize = workflows.len();
    let mut rest = workflows;
    let mut out: Vec<RouteEntry> = Vec::new();
    let ghost mut idx: Seq<usize> = Seq::empty();
    let mut i: usize = 0;
    assert(positions(0) =~= Seq::<usize>::empty());
    assert(ws.skip(0) =~= ws);
    while i < total
        invariant
            i <= ws.len(),
            total == ws.len(),
            rest@ == ws.skip(i as int),
            ps == priorities(ws),
            order == runs_before(ps),
            total_ordering(order),
            out@.len() == idx.len(),
            forall|k: int| 0 <= k < idx.len() ==> idx[k] < i && out@[k] == ws[#[trigger] idx[k] as int],
            sorted_by(idx, order),
            idx.to_multiset() == positions(i as nat).to_multiset(),
        decreases total - i,
    {
        assert(i < ws.len());
        let e = rest.remove(0);
        assert(ws.skip(i + 1) =~= ws.skip(i as int).remove(0));
        let ghost s = idx;
        let mut p: usize = 0;
        while p < out.len()
            invariant
                p <= out@.len(),
                s == idx,
                i < ws.len(),
                ps == priorities(ws),
                out@.len() == idx.len(),
                forall|k: int| 0 <= k < idx.len() ==> idx[k] < i && out@[k] == ws[#[trigger] idx[k] as int],
                forall|k: int| 0 <= k < p ==> ps[#[trigger] s[k] as int] <= e.priority,
            ensures
                p <= out@.len(),
                forall|k: int| 0 <= k < p ==> ps[#[trigger] s[k] as int] <= e.priority,
                p < out@.len() ==> ps[s[p as int] as int] > e.priority,
            decreases out@.len() - p,
        {
            if out[p].priority > e.priority {
                break;
            }
            p = p + 1;
        }
        assert(e == ws[i as int]);
        assert(ps[i as int] == e.priority);
        proof {
            if p < s.len() {
                assert forall|k: int| p <= k < s.len() implies ps[#[trigger] s[k] as int] > e.priority by {
                    if k > p {
                        assert(order(s[p as int], s[k]));
                    }
                }
            }
        }
        out.insert(p, e);
        proof {
            idx = s.insert(p as int, i);
        }
        assert forall|k: int| 0 <= k < idx.len() implies idx[k] < i + 1 && out@[k] == ws[
            #[trigger] idx[k] as int
        ] by {
            if k < p {
                assert(idx[k] == s[k]);
            } else if k > p {
                assert(idx[k] == s[k - 1]);
            }
        }
        assert(sorted_by(idx, order)) by {
            assert forall|a: int, b: int| 0 <= a < b < idx.len() implies #[trigger] order(
                idx[a],
                idx[b],
            ) by {
                if b < p {
                    assert(idx[a] == s[a] && idx[b] == s[b]);
                } else if b == p {
                    assert(idx[a] == s[a] && s[a] < i);
                } else if a < p {
                    assert(idx[a] == s[a] && idx[b] == s[b - 1]);
                } else if a == p {
                    assert(idx[b] == s[b - 1]);
                } else {
                    assert(idx[a] == s[a - 1] && idx[b] == s[b - 1]);
                }
            }
        }
        proof {
            vstd::seq_lib::to_multiset_insert(s, p as int, i);
            assert(positions((i + 1) as nat) =~= positions(i as nat).push(i));
            vstd::seq_lib::to_multiset_build(positions(i as nat), i);
        }
        i = i + 1;
    }
    proof {
        assert(i == ws.len());
        let target = priority_order(ps);
        positions(ws.len()).lemma_sort_by_ensures(order);
        vstd::seq_lib::lemma_sorted_unique(idx, target, order);
        assert(out@ =~= in_priority_order(ws));
    }
    out
}

/// The positions, ascending, of the Active workflows on `channel` among the
/// first `n` workflows.
pub open spec fn routed(ws: Seq<RouteEntry>, channel: Seq<char>, n: int) -> Seq<usize>
    decreases n,
{
    if n <= 0 {
        Seq::empty()
    } else {
        let before = routed(ws, channel, n - 1);
        if ws[n - 1].active && ws[n - 1].channel@ == channel {
            before.push((n - 1) as usize)
        } else {
            before
        }
    }
}

/// The positions, ascending, of the Active workflows on `channel`.
pub open spec fn channel_route(ws: Seq<RouteEntry>, channel: Seq<char>) -> Seq<usize> {
    routed(ws, channel, ws.len() as int)
}

/// The workflows of each channel, by position in the list the index was
/// built from. A channel appears once, and only if it has an Active
/// workflow.
pub struct ChannelIndex {
    channels: Vec<String>,
    routes: Vec<Vec<usize>>,
}

impl ChannelIndex {
    /// The indexed channels.
    pub closed spec fn channel_names(&self) -> Seq<Seq<char>> {
        self.channels@.map_values(|c: String| c@)
    }

    /// Whether `channel` has an entry.
    pub closed spec fn has(&self, channel: Seq<char>) -> bool {
        self.channel_names().contains(channel)
    }

    /// The positions listed for `channel`: empty when it has no entry.
    pub closed spec fn route(&self, channel: Seq<char>) -> Seq<usize> {
        if self.has(channel) {
            self.routes@[self.channel_names().index_of(channel)]@
        } else {
            Seq::empty()
        }
    }

    /// The index's invariant: one entry per channel.
    pub closed spec fn wf(&self) -> bool {
        &&& self.channels@.len() == self.routes@.len()
        &&& self.channel_names().no_duplicates()
    }

    /// The workflows to run for `channel`, by position: `None` when the
    /// channel has no Active workflow.
    pub fn get(&self, channel: &str) -> (r: Option<&Vec<usize>>)
        requires
            self.wf(),
        ensures
            match r {
                Some(v) => self.has(channel@) && v@ == self.route(channel@),
                None => !self.has(channel@),
            },
    {
        let mut k: usize = 0;
        while k < self.channels.len()
            invariant
                self.wf(),
                k <= self.channels@.len(),
                forall|j: int| 0 <= j < k ==> self.channel_names()[j] != channel@,
            decreases self.channels@.len() - k,
        {
            if str_eq(self.channels[k].as_str(), channel) {
                proof {
                    let names = self.channel_names();
                    assert(names[k as int] == channel@);
                    let j = names.index_of(channel@);
                    assert(names[j] == channel@);
                    assert(j == k);
                }
                return Some(&self.routes[k]);
            }
            k = k + 1;
        }
        assert(!self.has(channel@)) by {
            if self.has(channel@) {
                let j = self.channel_names().index_of(channel@);
                assert(self.channel_names()[j] == channel@);
            }
        }
        None
    }
}

/// Index the Active workflows of a list, already in run order, by channel.
pub fn build_channel_index(workflows: &Vec<RouteEntry>) -> (r: ChannelIndex)
    ensures
        r.wf(),
        forall|c: Seq<char>| #[trigger] r.has(c) <==> channel_route(workflows@, c).len() > 0,
        forall|c: Seq<char>| #[trigger] r.route(c) == channel_route(workflows@, c),
{
    let ghost ws = workflows@;
    let mut index = ChannelIndex { channels: Vec::new(), routes: Vec::new() };
    let mut i: usize = 0;
    assert(index.channel_names() =~= Seq::<Seq<char>>::empty());
    while i < workflows.len()
        invariant
            ws == workflows@,
            i <= ws.len(),
            index.wf(),
            forall|k: int| 0 <= k < index.channels@.len() ==> #[trigger] index.routes@[k]@ == routed(
                ws,
                index.channel_names()[k],
                i as int,
            ) && routed(ws, index.channel_names()[k], i as int).len() > 0,
            forall|c: Seq<char>| routed(ws, c, i as int).len() > 0 ==> #[trigger] index.channel_names().contains(c),
        decreases ws.len() - i,
    {
        let w = &workflows[i];
        let ghost names = index.channel_names();
        assert(ws[i as int] == *w);
        assert forall|c: Seq<char>| c != w.channel@ || !w.active implies #[trigger] routed(ws, c, i + 1) == routed(
            ws,
            c,
            i as int,
        ) by {}
        if w.active {
            assert(routed(ws, w.channel@, i + 1) == routed(ws, w.channel@, i as int).push(i));
            let mut k: usize = 0;
            while k < index.channels.len()
                invariant
                    index.wf(),
                    names == index.channel_names(),
                    k <= index.channels@.len(),
                    forall|j: int| 0 <= j < k ==> names[j] != w.channel@,
                ensures
                    k <= index.channels@.len(),
                    forall|j: int| 0 <= j < k ==> names[j] != w.channel@,
                    k < index.channels@.len() ==> names[k as int] == w.channel@,
                decreases index.channels@.len() - k,
            {
                if str_eq(index.channels[k].as_str(), w.channel.as_str()) {
                    break;
                }
                k = k + 1;
            }
            if k < index.channels.len() {
                let ghost before = index.routes@;
                index.routes[k].push(i);
                assert(index.channel_names() == names);
                assert forall|j: int| 0 <= j < index.channels@.len() implies #[trigger] index.routes@[j]@
                    == routed(ws, index.channel_names()[j], i + 1) && routed(
                    ws,
                    index.channel_names()[j],
                    i + 1,
                ).len() > 0 by {
                    if j != k {
                        assert(names[j] != names[k as int]);
                        assert(index.routes@[j] == before[j]);
                        assert(before[j]@ == routed(ws, names[j], i as int));
                        assert(routed(ws, names[j], i + 1) == routed(ws, names[j], i as int));
                    } else {
                        assert(before[j]@ == routed(ws, names[j], i as int));
                    }
                }
                assert forall|c: Seq<char>| routed(ws, c, i + 1).len() > 0 implies #[trigger] index.channel_names().contains(c) by {
                    if c == w.channel@ {
                        assert(names[k as int] == c);
                    }
                }
            } else {
                assert(!names.contains(w.channel@));
                let ghost before = index.routes@;
                index.channels.push(owned(w.channel.as_str()));
                let mut route: Vec<usize> = Vec::new();
                route.push(i);
                index.routes.push(route);
                assert(index.channel_names() =~= names.push(w.channel@));
                assert(routed(ws, w.channel@, i as int).len() == 0);
                assert(route@ =~= routed(ws, w.channel@, i + 1));
                assert(index.channel_names().no_duplicates()) by {
                    let t = index.channel_names();
                    assert forall|a: int, b: int| 0 <= a < t.len() && 0 <= b < t.len() && a != b implies t[a] != t[b] by {
                        if a < names.len() && b < names.len() {
                            assert(t[a] == names[a] && t[b] == names[b]);
                        } else if a == names.len() {
                            assert(t[b] == names[b]);
                        } else {
                            assert(t[a] == names[a]);
                        }
                    }
                }
                assert forall|j: int| 0 <= j < index.channels@.len() implies #[trigger] index.routes@[j]@
                    == routed(ws, index.channel_names()[j], i + 1) && routed(
                    ws,
                    index.channel_names()[j],
                    i + 1,
                ).len() > 0 by {
                    if j < names.len() {
                        assert(index.channel_names()[j] == names[j]);
                        assert(names[j] != w.channel@);
                        assert(index.routes@[j] == before[j]);
                        assert(before[j]@ == routed(ws, names[j], i as int));
                        assert(routed(ws, names[j], i + 1) == routed(ws, names[j], i as int));
                    } else {
                        assert(index.channel_names()[j] == w.channel@);
                        assert(index.routes@[j]@ == route@);
                    }
                }
                assert forall|c: Seq<char>| routed(ws, c, i + 1).len() > 0 implies #[trigger] index.channel_names().contains(c) by {
                    if c == w.channel@ {
                        assert(index.channel_names()[names.len() as int] == c);
                    } else {
                        assert(routed(ws, c, i + 1) == routed(ws, c, i as int));
                        assert(names.contains(c));
                        let j = choose|j: int| 0 <= j < names.len() && names[j] == c;
                        assert(index.channel_names()[j] == c);
                    }
                }
            }
        } else {
            assert forall|j: int| 0 <= j < index.channels@.len() implies #[trigger] index.routes@[j]@
                == routed(ws, index.channel_names()[j], i + 1) && routed(
                ws,
                index.channel_names()[j],
                i + 1,
            ).len() > 0 by {
                assert(routed(ws, names[j], i + 1) == routed(ws, names[j], i as int));
            }
        }
        i = i + 1;
    }
    proof {
        assert forall|c: Seq<char>| #[trigger] index.has(c) <==> channel_route(ws, c).len() > 0 by {
            if index.has(c) {
                let k = index.channel_names().index_of(c);
                assert(index.channel_names()[k] == c);
                assert(index.routes@[k]@ == routed(ws, c, i as int));
            }
        }
        assert forall|c: Seq<char>| #[trigger] index.route(c) == channel_route(ws, c) by {
            if index.has(c) {
                let k = index.channel_names().index_of(c);
                assert(index.channel_names()[k] == c);
                assert(index.routes@[k]@ == routed(ws, c, i as int));
            } else {
                assert(channel_route(ws, c).len() == 0);
                assert(channel_route(ws, c) =~= Seq::<usize>::empty());
            }
        }
    }
    index
}

/// What `routed` lists: positions below `n`, ascending, and exactly those of
/// the Active workflows on `channel`.
proof fn lemma_routed(ws: Seq<RouteEntry>, channel: Seq<char>, n: int)
    requires
        0 <= n <= ws.len(),
        ws.len() <= usize::MAX,
    ensures
        forall|a: int, b: int|
            0 <= a < b < routed(ws, channel, n).len() ==> routed(ws, channel, n)[a] < routed(
                ws,
                channel,
                n,
            )[b],
        forall|a: int| 0 <= a < routed(ws, channel, n).len() ==> routed(ws, channel, n)[a] < n,
        forall|i: int|
            0 <= i < ws.len() ==> (routed(ws, channel, n).contains(i as usize) <==> (i < n
                && ws[i].active && ws[i].channel@ == channel)),
    decreases n,
{
    if n > 0 {
        lemma_routed(ws, channel, n - 1);
        let before = routed(ws, channel, n - 1);
        let now = routed(ws, channel, n);
        assert forall|i: int| 0 <= i < ws.len() implies (now.contains(i as usize) <==> (i < n
            && ws[i].active && ws[i].channel@ == channel)) by {
            if now.contains(i as usize) {
                let a = choose|a: int| 0 <= a < now.len() && now[a] == i as usize;
                if a < before.len() {
                    assert(before[a] == now[a]);
                    assert(before.contains(i as usize));
                }
            }
            if i < n - 1 && ws[i].active && ws[i].channel@ == channel {
                assert(before.contains(i as usize));
                let a = choose|a: int| 0 <= a < before.len() && before[a] == i as usize;
                assert(now[a] == i as usize);
            }
            if i == n - 1 && ws[i].active && ws[i].channel@ == channel {
                assert(now[before.len() as int] == i as usize);
            }
        }
    }
}

/// Each Active workflow runs for exactly one channel, its own, and a
/// workflow that is not Active runs for none.
pub proof fn lemma_each_workflow_runs_for_its_own_channel(
    ws: Seq<RouteEntry>,
    i: int,
    channel: Seq<char>,
)
    requires
        0 <= i < ws.len(),
        ws.len() <= usize::MAX,
    ensures
        channel_route(ws, channel).contains(i as usize) <==> (ws[i].active && ws[i].channel@
            == channel),
{
    lemma_routed(ws, channel, ws.len() as int);
}

/// A channel runs its workflows in the order of the list the index was built
/// from, each once.
pub proof fn lemma_channel_route_keeps_run_order(ws: Seq<RouteEntry>, channel: Seq<char>)
    requires
        ws.len() <= usize::MAX,
    ensures
        forall|a: int, b: int|
            0 <= a < b < channel_route(ws, channel).len() ==> channel_route(ws, channel)[a]
                < channel_route(ws, channel)[b],
        forall|a: int|
            0 <= a < channel_route(ws, channel).len() ==> channel_route(ws, channel)[a] < ws.len(),
{
    lemma_routed(ws, channel, ws.len() as int);
}

/// Workflows run in ascending priority; workflows of equal priority run in
/// the order they were given in; and each workflow runs once.
pub proof fn lemma_priority_order_is_a_stable_sort(ps: Seq<u32>)
    requires
        ps.len() <= usize::MAX,
    ensures
        priority_order(ps).len() == ps.len(),
        forall|j: usize| j < ps.len() ==> #[trigger] priority_order(ps).contains(j),
        forall|k: int| 0 <= k < priority_order(ps).len() ==> priority_order(ps)[k] < ps.len(),
        forall|a: int, b: int|
            0 <= a < b < priority_order(ps).len() ==> ps[priority_order(ps)[a] as int]
                < ps[priority_order(ps)[b] as int] || (ps[priority_order(ps)[a] as int]
                == ps[priority_order(ps)[b] as int] && priority_order(ps)[a]
                < priority_order(ps)[b]),
{
    broadcast use vstd::seq_lib::group_to_multiset_ensures;

    let all = positions(ps.len());
    let order = priority_order(ps);
    lemma_runs_before_total(ps);
    all.lemma_sort_by_ensures(runs_before(ps));
    assert(all.no_duplicates()) by {
        assert forall|i: int, j: int| 0 <= i < all.len() && 0 <= j < all.len() && i != j implies all[i]
            != all[j] by {}
    }
    all.lemma_multiset_has_no_duplicates();
    order.lemma_multiset_has_no_duplicates_conv();
    assert(order.len() == all.len()) by {
        assert(order.to_multiset().len() == all.to_multiset().len());
    }
    assert forall|j: usize| j < ps.len() implies #[trigger] order.contains(j) by {
        assert(all[j as int] == j);
        assert(all.to_multiset().contains(j));
    }
    assert forall|k: int| 0 <= k < order.len() implies order[k] < ps.len() by {
        assert(order.to_multiset().contains(order[k]));
        assert(all.contains(order[k]));
    }
    assert forall|a: int, b: int| 0 <= a < b < order.len() implies ps[order[a] as int]
        < ps[order[b] as int] || (ps[order[a] as int] == ps[order[b] as int] && order[a]
        < order[b]) by {
        assert(runs_before(ps)(order[a], order[b]));
        assert(order[a] != order[b]);
    }
}

} // verus!

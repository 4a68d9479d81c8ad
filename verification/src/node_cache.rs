//! The node cache: one entry per endpoint, updated by probes, shrunk by
//! failed forwards, and read by the selector, which picks among the fastest
//! active nodes.

use crate::types::{duration_nanos, nanos_of, wall_clock, RpcNode};
use rand::seq::SliceRandom;
use std::time::Duration;
use vstd::prelude::*;
use vstd::string::*;

verus! {

/// How many of the fastest nodes the selector chooses among.
pub const TOP_FASTEST: usize = 20;

/// Whether some entry has this endpoint.
pub open spec fn has_endpoint(entries: Seq<RpcNode>, endpoint: Seq<char>) -> bool {
    exists|i: int| 0 <= i < entries.len() && (#[trigger] entries[i]).endpoint@ == endpoint
}

/// Whether `i` is the first position whose entry has this endpoint.
pub open spec fn first_at(entries: Seq<RpcNode>, endpoint: Seq<char>, i: int) -> bool {
    &&& 0 <= i < entries.len()
    &&& entries[i].endpoint@ == endpoint
    &&& forall|j: int| 0 <= j < i ==> (#[trigger] entries[j]).endpoint@ != endpoint
}

/// The position of the entry with this endpoint; the length where there is none.
pub open spec fn slot(entries: Seq<RpcNode>, endpoint: Seq<char>) -> int {
    if has_endpoint(entries, endpoint) {
        choose|i: int| first_at(entries, endpoint, i)
    } else {
        entries.len() as int
    }
}

/// Whether a node can be an entry: its endpoint is not empty, and it has a
/// response time if it is active.
pub open spec fn storable(node: RpcNode) -> bool {
    node.endpoint@.len() > 0 && (node.is_active ==> node.response_time is Some)
}

/// No two entries share an endpoint, and every entry is storable.
pub open spec fn well_formed(entries: Seq<RpcNode>) -> bool {
    &&& forall|i: int, j: int|
        0 <= i < j < entries.len() ==> (#[trigger] entries[i]).endpoint@ != (
        #[trigger] entries[j]).endpoint@
    &&& forall|i: int| 0 <= i < entries.len() ==> storable(#[trigger] entries[i])
}

/// The entries after `stored` took the place of the entry with its endpoint,
/// or joined at the end where there was none.
pub open spec fn upserted(entries: Seq<RpcNode>, stored: RpcNode) -> Seq<RpcNode> {
    if has_endpoint(entries, stored.endpoint@) {
        entries.update(slot(entries, stored.endpoint@), stored)
    } else {
        entries.push(stored)
    }
}

/// The entries without the one that has this endpoint.
pub open spec fn without(entries: Seq<RpcNode>, endpoint: Seq<char>) -> Seq<RpcNode> {
    if has_endpoint(entries, endpoint) {
        entries.remove(slot(entries, endpoint))
    } else {
        entries
    }
}

/// The active entries, in the cache's order.
pub open spec fn active_entries(entries: Seq<RpcNode>) -> Seq<RpcNode> {
    entries.filter(|e: RpcNode| e.is_active)
}

/// Whether some entry is active and has a response time.
pub open spec fn has_ranked(entries: Seq<RpcNode>) -> bool {
    exists|i: int| 0 <= i < entries.len() && (#[trigger] entries[i]).ranked()
}

/// The ranked entries, in the cache's order.
pub open spec fn ranked_entries(entries: Seq<RpcNode>) -> Seq<RpcNode> {
    entries.filter(|e: RpcNode| e.ranked())
}

/// How many entries the list of the fastest holds: all the ranked ones, up
/// to `TOP_FASTEST`.
pub open spec fn top_len(entries: Seq<RpcNode>) -> int {
    if ranked_entries(entries).len() < TOP_FASTEST {
        ranked_entries(entries).len() as int
    } else {
        TOP_FASTEST as int
    }
}

/// Whether `top` lists the fastest ranked entries: all of them up to
/// `TOP_FASTEST`, each once, in ascending order of response time, and such
/// that every ranked entry left out is no faster than the slowest one listed.
pub open spec fn is_top_ranking(entries: Seq<RpcNode>, top: Seq<RpcNode>) -> bool {
    &&& top.len() == top_len(entries)
    &&& forall|p: int| 0 <= p < top.len() ==> entries.contains(#[trigger] top[p]) && top[p].ranked()
    &&& forall|p: int, q: int|
        0 <= p < q < top.len() ==> (#[trigger] top[p]).endpoint@ != (#[trigger] top[q]).endpoint@
    &&& forall|p: int, q: int|
        0 <= p < q < top.len() ==> (#[trigger] top[p]).latency() <= (#[trigger] top[q]).latency()
    &&& forall|i: int|
        0 <= i < entries.len() && (#[trigger] entries[i]).ranked() ==> top.contains(entries[i]) || (
        top.len() == TOP_FASTEST && entries[i].latency() >= top[TOP_FASTEST - 1].latency())
}

/// What the selector may return: nothing exactly when no entry is active;
/// otherwise an active entry, which is one of the fastest ranked entries
/// whenever any entry is ranked.
pub open spec fn selection_allowed(entries: Seq<RpcNode>, chosen: Option<RpcNode>) -> bool {
    match chosen {
        None => active_entries(entries).len() == 0,
        Some(n) => {
            &&& entries.contains(n)
            &&& n.is_active
            &&& has_ranked(entries) ==> exists|top: Seq<RpcNode>| #[trigger]
                is_top_ranking(entries, top) && top.contains(n)
        },
    }
}

/// The fastest entries of the first `j`, with the position that each came from.
spec fn ranking_of_prefix(entries: Seq<RpcNode>, j: int, top: Seq<RpcNode>, idx: Seq<int>) -> bool {
    &&& 0 <= j <= entries.len()
    &&& top.len() == idx.len()
    &&& top.len() == top_len(entries.take(j))
    &&& forall|p: int|
        0 <= p < top.len() ==> 0 <= (#[trigger] idx[p]) < j && entries[idx[p]] == top[p]
            && top[p].ranked()
    &&& forall|p: int, q: int| 0 <= p < q < idx.len() ==> (#[trigger] idx[p]) != (#[trigger] idx[q])
    &&& forall|p: int, q: int|
        0 <= p < q < top.len() ==> (#[trigger] top[p]).latency() <= (#[trigger] top[q]).latency()
    &&& forall|i: int|
        0 <= i < j && (#[trigger] entries[i]).ranked() ==> idx.contains(i) || (top.len()
            == TOP_FASTEST && entries[i].latency() >= top[TOP_FASTEST - 1].latency())
}

proof fn lemma_ranked_count_step(entries: Seq<RpcNode>, j: int)
    requires
        0 <= j < entries.len(),
    ensures
        ranked_entries(entries.take(j + 1)).len() == ranked_entries(entries.take(j)).len() + (
        if entries[j].ranked() {
            1int
        } else {
            0int
        }),
{
    entries.lemma_take_succ_push(j);
    entries.take(j).lemma_filter_push(entries[j], |e: RpcNode| e.ranked());
}

proof fn lemma_ranking_skip(entries: Seq<RpcNode>, j: int, top: Seq<RpcNode>, idx: Seq<int>)
    requires
        ranking_of_prefix(entries, j, top, idx),
        j < entries.len(),
        !entries[j].ranked() || (top.len() == TOP_FASTEST && entries[j].latency() >= top[TOP_FASTEST
            - 1].latency()),
    ensures
        ranking_of_prefix(entries, j + 1, top, idx),
{
    lemma_ranked_count_step(entries, j);
}

proof fn lemma_ranking_insert(
    entries: Seq<RpcNode>,
    j: int,
    top: Seq<RpcNode>,
    idx: Seq<int>,
    pos: int,
)
    requires
        ranking_of_prefix(entries, j, top, idx),
        j < entries.len(),
        entries[j].ranked(),
        top.len() < TOP_FASTEST,
        0 <= pos <= top.len(),
        forall|p: int| 0 <= p < pos ==> (#[trigger] top[p]).latency() <= entries[j].latency(),
        pos < top.len() ==> top[pos].latency() > entries[j].latency(),
    ensures
        ranking_of_prefix(entries, j + 1, top.insert(pos, entries[j]), idx.insert(pos, j)),
{
    lemma_ranked_count_step(entries, j);
    let top2 = top.insert(pos, entries[j]);
    let idx2 = idx.insert(pos, j);
    assert forall|p: int| 0 <= p < top2.len() implies 0 <= (#[trigger] idx2[p]) < j + 1
        && entries[idx2[p]] == top2[p] && top2[p].ranked() by {
        if p < pos {
            assert(idx2[p] == idx[p] && top2[p] == top[p]);
        } else if p > pos {
            assert(idx2[p] == idx[p - 1] && top2[p] == top[p - 1]);
        }
    }
    assert forall|p: int, q: int| 0 <= p < q < idx2.len() implies (#[trigger] idx2[p]) != (
    #[trigger] idx2[q]) by {
        let p0 = if p < pos { p } else { p - 1 };
        let q0 = if q < pos { q } else { q - 1 };
        if p != pos && q != pos {
            assert(idx2[p] == idx[p0] && idx2[q] == idx[q0]);
        } else if p == pos {
            assert(idx2[q] == idx[q0]);
        } else {
            assert(idx2[p] == idx[p0]);
        }
    }
    assert forall|p: int, q: int| 0 <= p < q < top2.len() implies (#[trigger] top2[p]).latency() <= (
    #[trigger] top2[q]).latency() by {
        let p0 = if p < pos { p } else { p - 1 };
        let q0 = if q < pos { q } else { q - 1 };
        if p != pos && q != pos {
            assert(top2[p] == top[p0] && top2[q] == top[q0]);
        } else if p == pos {
            assert(top2[q] == top[q0]);
            if pos < q0 {
                assert(top[pos].latency() <= top[q0].latency());
            }
        } else {
            assert(top2[p] == top[p0]);
        }
    }
    assert forall|i: int| 0 <= i < j + 1 && (#[trigger] entries[i]).ranked() implies idx2.contains(
        i,
    ) || (top2.len() == TOP_FASTEST && entries[i].latency() >= top2[TOP_FASTEST - 1].latency()) by {
        if i == j {
            assert(idx2[pos] == j);
        } else {
            assert(idx.contains(i));
            let p = choose|p: int| 0 <= p < idx.len() && idx[p] == i;
            let p2 = if p < pos { p } else { p + 1 };
            assert(idx2[p2] == i);
        }
    }
}

proof fn lemma_ranking_replace(
    entries: Seq<RpcNode>,
    j: int,
    top: Seq<RpcNode>,
    idx: Seq<int>,
    pos: int,
)
    requires
        ranking_of_prefix(entries, j, top, idx),
        j < entries.len(),
        entries[j].ranked(),
        top.len() == TOP_FASTEST,
        0 <= pos < top.len(),
        forall|p: int| 0 <= p < pos ==> (#[trigger] top[p]).latency() <= entries[j].latency(),
        top[pos].latency() > entries[j].latency(),
    ensures
        ranking_of_prefix(
            entries,
            j + 1,
            top.drop_last().insert(pos, entries[j]),
            idx.drop_last().insert(pos, j),
        ),
{
    lemma_ranked_count_step(entries, j);
    let top1 = top.drop_last();
    let idx1 = idx.drop_last();
    let top2 = top1.insert(pos, entries[j]);
    let idx2 = idx1.insert(pos, j);
    let last = TOP_FASTEST - 1;
    assert forall|p: int| 0 <= p < top2.len() implies 0 <= (#[trigger] idx2[p]) < j + 1
        && entries[idx2[p]] == top2[p] && top2[p].ranked() by {
        if p < pos {
            assert(idx2[p] == idx[p] && top2[p] == top[p]);
        } else if p > pos {
            assert(idx2[p] == idx[p - 1] && top2[p] == top[p - 1]);
        }
    }
    assert forall|p: int, q: int| 0 <= p < q < idx2.len() implies (#[trigger] idx2[p]) != (
    #[trigger] idx2[q]) by {
        let p0 = if p < pos { p } else { p - 1 };
        let q0 = if q < pos { q } else { q - 1 };
        if p != pos && q != pos {
            assert(idx2[p] == idx[p0] && idx2[q] == idx[q0]);
        } else if p == pos {
            assert(idx2[q] == idx[q0]);
        } else {
            assert(idx2[p] == idx[p0]);
        }
    }
    assert forall|p: int, q: int| 0 <= p < q < top2.len() implies (#[trigger] top2[p]).latency() <= (
    #[trigger] top2[q]).latency() by {
        let p0 = if p < pos { p } else { p - 1 };
        let q0 = if q < pos { q } else { q - 1 };
        if p != pos && q != pos {
            assert(top2[p] == top[p0] && top2[q] == top[q0]);
        } else if p == pos {
            assert(top2[q] == top[q0]);
            if pos < q0 {
                assert(top[pos].latency() <= top[q0].latency());
            }
        } else {
            assert(top2[p] == top[p0]);
        }
    }
    // The new slowest listed entry is no slower than the one that left.
    assert(top2[last].latency() <= top[last].latency()) by {
        if pos == last {
            assert(top2[last] == entries[j]);
        } else {
            assert(top2[last] == top[last - 1]);
        }
    }
    assert forall|i: int| 0 <= i < j + 1 && (#[trigger] entries[i]).ranked() implies idx2.contains(
        i,
    ) || (top2.len() == TOP_FASTEST && entries[i].latency() >= top2[last].latency()) by {
        if i == j {
            assert(idx2[pos] == j);
        } else if idx.contains(i) {
            let p = choose|p: int| 0 <= p < idx.len() && idx[p] == i;
            if p == last {
                assert(entries[i] == top[last]);
            } else {
                let p2 = if p < pos { p } else { p + 1 };
                assert(idx1[p] == i);
                assert(idx2[p2] == i);
            }
        }
    }
}

proof fn lemma_ranking_done(entries: Seq<RpcNode>, top: Seq<RpcNode>, idx: Seq<int>)
    requires
        ranking_of_prefix(entries, entries.len() as int, top, idx),
        well_formed(entries),
    ensures
        is_top_ranking(entries, top),
        has_ranked(entries) ==> top.len() > 0,
{
    assert(entries.take(entries.len() as int) == entries);
    assert forall|p: int| 0 <= p < top.len() implies entries.contains(#[trigger] top[p])
        && top[p].ranked() by {
        assert(entries[idx[p]] == top[p]);
    }
    assert forall|p: int, q: int| 0 <= p < q < top.len() implies (#[trigger] top[p]).endpoint@ != (
    #[trigger] top[q]).endpoint@ by {
        assert(idx[p] != idx[q]);
        assert(entries[idx[p]] == top[p] && entries[idx[q]] == top[q]);
        if idx[p] < idx[q] {
            assert(entries[idx[p]].endpoint@ != entries[idx[q]].endpoint@);
        } else {
            assert(entries[idx[q]].endpoint@ != entries[idx[p]].endpoint@);
        }
    }
    assert forall|i: int| 0 <= i < entries.len() && (#[trigger] entries[i]).ranked() implies top.contains(
        entries[i],
    ) || (top.len() == TOP_FASTEST && entries[i].latency() >= top[TOP_FASTEST - 1].latency()) by {
        if idx.contains(i) {
            let p = choose|p: int| 0 <= p < idx.len() && idx[p] == i;
            assert(top[p] == entries[i]);
        }
    }
    if has_ranked(entries) {
        let i = choose|i: int| 0 <= i < entries.len() && (#[trigger] entries[i]).ranked();
        if idx.contains(i) {
            let p = choose|p: int| 0 <= p < idx.len() && idx[p] == i;
        }
    }
}

/// The response time of a node in nanoseconds; zero where it has none.
fn latency_nanos(node: &RpcNode) -> (n: u128)
    ensures
        n == node.latency(),
{
    match node.response_time {
        Some(d) => nanos_of(&d),
        None => 0,
    }
}

/// Where a response time goes in an ascending list: behind every entry that
/// is no slower.
fn insertion_point(top: &Vec<RpcNode>, t: u128) -> (pos: usize)
    ensures
        pos <= top.len(),
        forall|p: int| 0 <= p < pos ==> (#[trigger] top@[p]).latency() <= t,
        pos < top.len() ==> top@[pos as int].latency() > t,
{
    let mut pos: usize = 0;
    while pos < top.len() && latency_nanos(&top[pos]) <= t
        invariant
            pos <= top.len(),
            forall|p: int| 0 <= p < pos ==> (#[trigger] top@[p]).latency() <= t,
        decreases top.len() - pos,
    {
        pos += 1;
    }
    pos
}

/// `rand`'s `SliceRandom::choose` on the thread's generator: nothing for an
/// empty list, else one of the list's nodes. Which one is left open.
#[verifier::external_body]
fn choose_node(nodes: &Vec<RpcNode>) -> (pick: Option<&RpcNode>)
    ensures
        match pick {
            Some(n) => nodes@.contains(*n),
            None => nodes@.len() == 0,
        },
{
    nodes.choose(&mut rand::thread_rng())
}

/// The extreme response times among the ranked entries: `None` exactly when
/// no entry is ranked, else the response time of a ranked entry that none
/// undercuts (`lowest`) or none exceeds (`!lowest`).
pub open spec fn is_extreme(entries: Seq<RpcNode>, found: Option<Duration>, lowest: bool) -> bool {
    match found {
        None => !has_ranked(entries),
        Some(d) => {
            &&& exists|i: int|
                0 <= i < entries.len() && (#[trigger] entries[i]).ranked()
                    && entries[i].response_time == Some(d)
            &&& forall|i: int|
                0 <= i < entries.len() && (#[trigger] entries[i]).ranked() ==> if lowest {
                    duration_nanos(d) <= entries[i].latency()
                } else {
                    duration_nanos(d) >= entries[i].latency()
                }
        },
    }
}

/// One more entry: the extreme stays where the entry is unranked or does
/// not beat it, and becomes the entry's response time where it does.
proof fn lemma_extreme_step(
    before: Seq<RpcNode>,
    after: Seq<RpcNode>,
    found: Option<Duration>,
    next: Option<Duration>,
    lowest: bool,
)
    requires
        after.len() == before.len() + 1,
        forall|k: int| 0 <= k < before.len() ==> after[k] == before[k],
        is_extreme(before, found, lowest),
        ({
            let e = after[before.len() as int];
            if !e.ranked() {
                next == found
            } else {
                match found {
                    None => next == e.response_time,
                    Some(m) => if (lowest && e.latency() < duration_nanos(m)) || (!lowest
                        && e.latency() > duration_nanos(m)) {
                        next == e.response_time
                    } else {
                        next == found
                    },
                }
            }
        }),
    ensures
        is_extreme(after, next, lowest),
{
    let n = before.len() as int;
    let e = after[n];
    assert forall|i: int| 0 <= i < n implies (#[trigger] after[i]) == before[i] by {}
    match next {
        None => {
            assert(!e.ranked());
            assert forall|i: int| 0 <= i < after.len() implies !(#[trigger] after[i]).ranked() by {
                if i < n {
                    assert(after[i] == before[i]);
                    assert(!before[i].ranked());
                }
            }
        },
        Some(d) => {
            if e.ranked() && next == e.response_time {
                assert(after[n].ranked() && after[n].response_time == Some(d));
            } else {
                let w = choose|i: int|
                    0 <= i < before.len() && (#[trigger] before[i]).ranked()
                        && before[i].response_time == Some(d);
                assert(after[w].ranked() && after[w].response_time == Some(d));
            }
            assert forall|i: int| 0 <= i < after.len() && (#[trigger] after[i]).ranked() implies if lowest {
                duration_nanos(d) <= after[i].latency()
            } else {
                duration_nanos(d) >= after[i].latency()
            } by {
                if i < n {
                    assert(after[i] == before[i]);
                    assert(before[i].ranked());
                }
            }
        },
    }
}

/// The shared store of known upstream nodes.
pub struct NodeCache {
    nodes: Vec<RpcNode>,
}

impl NodeCache {
    /// The entries, in the order in which their endpoints were first stored.
    pub closed spec fn entries(&self) -> Seq<RpcNode> {
        self.nodes@
    }

    /// The cache's invariant: one entry per endpoint, none with an empty
    /// endpoint, and a response time with every active entry.
    pub open spec fn wf(&self) -> bool {
        well_formed(self.entries())
    }

    /// An empty cache.
    pub fn new() -> (cache: Self)
        ensures
            cache.entries() == Seq::<RpcNode>::empty(),
            cache.wf(),
    {
        NodeCache { nodes: Vec::new() }
    }

    /// The position of the entry with this endpoint.
    fn find(&self, endpoint: &String) -> (at: usize)
        ensures
            at as int == slot(self.entries(), endpoint@),
            at <= self.entries().len(),
            (at < self.entries().len()) == has_endpoint(self.entries(), endpoint@),
            at < self.entries().len() ==> self.entries()[at as int].endpoint@ == endpoint@,
            forall|j: int| 0 <= j < at ==> (#[trigger] self.entries()[j]).endpoint@ != endpoint@,
    {
        let mut i: usize = 0;
        while i < self.nodes.len() && !(self.nodes[i].endpoint == *endpoint)
            invariant
                i <= self.nodes.len(),
                forall|j: int| 0 <= j < i ==> (#[trigger] self.nodes@[j]).endpoint@ != endpoint@,
            decreases self.nodes.len() - i,
        {
            i += 1;
        }
        proof {
            if i < self.nodes.len() {
                assert(first_at(self.nodes@, endpoint@, i as int));
                let c = slot(self.nodes@, endpoint@);
                assert(first_at(self.nodes@, endpoint@, c));
                assert(c == i) by {
                    if c < i {
                        assert(self.nodes@[c].endpoint@ != endpoint@);
                    } else if i < c {
                        assert(self.nodes@[i as int].endpoint@ == endpoint@);
                    }
                }
            }
        }
        i
    }

    /// Stores the outcome of a probe: the node's entry is created or
    /// overwritten, with the activity as given and the response time kept
    /// only for an active node.
    pub fn update_node_status(&mut self, node: RpcNode, is_active: bool, response_time: Duration)
        requires
            old(self).wf(),
            node.endpoint@.len() > 0,
        ensures
            final(self).wf(),
            ({
                let at = slot(old(self).entries(), node.endpoint@);
                let stored = final(self).entries()[at];
                &&& 0 <= at < final(self).entries().len()
                &&& stored.endpoint == node.endpoint
                &&& stored.is_active == is_active
                &&& stored.response_time == (if is_active {
                    Some(response_time)
                } else {
                    None::<Duration>
                })
                &&& final(self).entries() == upserted(old(self).entries(), stored)
            }),
    {
        let at = self.find(&node.endpoint);
        let stored = RpcNode {
            endpoint: node.endpoint,
            last_seen: wall_clock(),
            response_time: if is_active {
                Some(response_time)
            } else {
                None
            },
            is_active,
        };
        if at < self.nodes.len() {
            self.nodes[at] = stored;
        } else {
            self.nodes.push(stored);
        }
        proof {
            let before = old(self).entries();
            let after = self.nodes@;
            assert forall|i: int, j: int| 0 <= i < j < after.len() implies (
            #[trigger] after[i]).endpoint@ != (#[trigger] after[j]).endpoint@ by {
                if i != at && j != at {
                    assert(after[i] == before[i] && after[j] == before[j]);
                } else if at < before.len() {
                    if i == at {
                        assert(after[j] == before[j]);
                        assert(before[i].endpoint@ != before[j].endpoint@);
                    } else {
                        assert(after[i] == before[i]);
                        assert(before[i].endpoint@ != before[j].endpoint@);
                    }
                } else {
                    assert(after[i] == before[i]);
                }
            }
            assert forall|i: int| 0 <= i < after.len() implies storable(#[trigger] after[i]) by {
                if i != at {
                    assert(after[i] == before[i]);
                }
            }
        }
    }

    /// Drops the entry with this endpoint, if there is one.
    pub fn remove_node(&mut self, endpoint: &str)
        requires
            old(self).wf(),
        ensures
            final(self).wf(),
            final(self).entries() == without(old(self).entries(), endpoint@),
            !has_endpoint(final(self).entries(), endpoint@),
    {
        let key = String::from_str(endpoint);
        let at = self.find(&key);
        if at < self.nodes.len() {
            self.nodes.remove(at);
            proof {
                let before = old(self).entries();
                let after = self.nodes@;
                assert forall|i: int| 0 <= i < after.len() implies (#[trigger] after[i]).endpoint@
                    != endpoint@ by {
                    if i < at {
                        assert(after[i] == before[i]);
                    } else {
                        assert(after[i] == before[i + 1]);
                        assert(before[at as int].endpoint@ != before[i + 1].endpoint@);
                    }
                }
                assert forall|i: int, j: int| 0 <= i < j < after.len() implies (
                #[trigger] after[i]).endpoint@ != (#[trigger] after[j]).endpoint@ by {
                    let i0 = if i < at { i } else { i + 1 };
                    let j0 = if j < at { j } else { j + 1 };
                    assert(after[i] == before[i0] && after[j] == before[j0]);
                }
                assert forall|i: int| 0 <= i < after.len() implies storable(#[trigger] after[i]) by {
                    let i0 = if i < at { i } else { i + 1 };
                    assert(after[i] == before[i0]);
                }
            }
        }
    }

    /// The active entries at this moment.
    pub fn get_active_nodes(&self) -> (active: Vec<RpcNode>)
        ensures
            active@ == active_entries(self.entries()),
    {
        let mut active: Vec<RpcNode> = Vec::new();
        let mut i: usize = 0;
        while i < self.nodes.len()
            invariant
                i <= self.nodes.len(),
                active@ == active_entries(self.nodes@.take(i as int)),
            decreases self.nodes.len() - i,
        {
            proof {
                self.nodes@.lemma_take_succ_push(i as int);
                self.nodes@.take(i as int).lemma_filter_push(
                    self.nodes@[i as int],
                    |e: RpcNode| e.is_active,
                );
            }
            if self.nodes[i].is_active {
                active.push(self.nodes[i].duplicate());
            }
            i += 1;
        }
        proof {
            assert(self.nodes@.take(i as int) == self.nodes@);
        }
        active
    }

    /// The number of entries and the number of active ones.
    pub fn get_node_stats(&self) -> (stats: (usize, usize))
        ensures
            stats.0 == self.entries().len(),
            stats.1 == active_entries(self.entries()).len(),
    {
        let mut active: usize = 0;
        let mut i: usize = 0;
        while i < self.nodes.len()
            invariant
                i <= self.nodes.len(),
                active <= i,
                active == active_entries(self.nodes@.take(i as int)).len(),
            decreases self.nodes.len() - i,
        {
            proof {
                self.nodes@.lemma_take_succ_push(i as int);
                self.nodes@.take(i as int).lemma_filter_push(
                    self.nodes@[i as int],
                    |e: RpcNode| e.is_active,
                );
            }
            if self.nodes[i].is_active {
                active += 1;
            }
            i += 1;
        }
        proof {
            assert(self.nodes@.take(i as int) == self.nodes@);
        }
        (self.nodes.len(), active)
    }

    /// The fastest ranked entries, fastest first, at most `TOP_FASTEST` of them.
    pub fn fastest_nodes(&self) -> (top: Vec<RpcNode>)
        requires
            self.wf(),
        ensures
            is_top_ranking(self.entries(), top@),
            has_ranked(self.entries()) == (top@.len() > 0),
    {
        let mut top: Vec<RpcNode> = Vec::new();
        let ghost mut idx: Seq<int> = Seq::empty();
        let mut j: usize = 0;
        while j < self.nodes.len()
            invariant
                ranking_of_prefix(self.nodes@, j as int, top@, idx),
            decreases self.nodes.len() - j,
        {
            let node = &self.nodes[j];
            if node.is_active && node.response_time.is_some() {
                let t = latency_nanos(node);
                let pos = insertion_point(&top, t);
                if top.len() < TOP_FASTEST {
                    proof {
                        lemma_ranking_insert(self.nodes@, j as int, top@, idx, pos as int);
                        idx = idx.insert(pos as int, j as int);
                    }
                    top.insert(pos, node.duplicate());
                } else if pos < TOP_FASTEST {
                    proof {
                        lemma_ranking_replace(self.nodes@, j as int, top@, idx, pos as int);
                        idx = idx.drop_last().insert(pos as int, j as int);
                    }
                    top.pop();
                    top.insert(pos, node.duplicate());
                } else {
                    proof {
                        lemma_ranking_skip(self.nodes@, j as int, top@, idx);
                    }
                }
            } else {
                proof {
                    lemma_ranking_skip(self.nodes@, j as int, top@, idx);
                }
            }
            j += 1;
        }
        proof {
            lemma_ranking_done(self.nodes@, top@, idx);
            if top@.len() > 0 {
                assert(self.nodes@[idx[0]] == top@[0]);
            }
        }
        top
    }

    /// One of the active entries, chosen at random; `None` when there is none.
    pub fn get_random_active_node(&self) -> (chosen: Option<RpcNode>)
        ensures
            match chosen {
                Some(n) => active_entries(self.entries()).contains(n),
                None => active_entries(self.entries()).len() == 0,
            },
    {
        let active = self.get_active_nodes();
        match choose_node(&active) {
            Some(n) => Some(n.duplicate()),
            None => None,
        }
    }

    /// The node for the next forward: a random choice among the fastest
    /// ranked entries; among all active entries where none is ranked; `None`
    /// where none is active.
    pub fn get_random_fast_node(&self) -> (chosen: Option<RpcNode>)
        requires
            self.wf(),
        ensures
            selection_allowed(self.entries(), chosen),
    {
        let top = self.fastest_nodes();
        if top.len() == 0 {
            let chosen = self.get_random_active_node();
            proof {
                if chosen is Some {
                    let n = chosen->0;
                    self.entries().lemma_filter_contains_rev(|e: RpcNode| e.is_active, n);
                    let at = choose|i: int|
                        0 <= i < active_entries(self.entries()).len() && active_entries(
                            self.entries(),
                        )[i] == n;
                    self.entries().lemma_filter_pred(|e: RpcNode| e.is_active, at);
                }
            }
            return chosen;
        }
        match choose_node(&top) {
            Some(n) => {
                proof {
                    let p = choose|p: int| 0 <= p < top@.len() && top@[p] == *n;
                    assert(self.entries().contains(top@[p]) && top@[p].ranked());
                }
                Some(n.duplicate())
            },
            None => None,
        }
    }

    /// The number of entries, the number of active ones, and the lowest and
    /// the highest response time among the ranked entries.
    pub fn get_performance_stats(&self) -> (stats: (
        usize,
        usize,
        Option<Duration>,
        Option<Duration>,
    ))
        ensures
            stats.0 == self.entries().len(),
            stats.1 == active_entries(self.entries()).len(),
            is_extreme(self.entries(), stats.2, true),
            is_extreme(self.entries(), stats.3, false),
    {
        let (total, active) = self.get_node_stats();
        let mut lowest: Option<Duration> = None;
        let mut highest: Option<Duration> = None;
        let mut i: usize = 0;
        while i < self.nodes.len()
            invariant
                i <= self.nodes.len(),
                is_extreme(self.nodes@.take(i as int), lowest, true),
                is_extreme(self.nodes@.take(i as int), highest, false),
            decreases self.nodes.len() - i,
        {
            let ghost before = self.nodes@.take(i as int);
            let ghost after = self.nodes@.take(i + 1);
            let ghost old_lowest = lowest;
            let ghost old_highest = highest;
            let node = &self.nodes[i];
            if node.is_active {
                if let Some(d) = node.response_time {
                    let t = nanos_of(&d);
                    lowest = match lowest {
                        Some(m) => if t < nanos_of(&m) {
                            Some(d)
                        } else {
                            Some(m)
                        },
                        None => Some(d),
                    };
                    highest = match highest {
                        Some(m) => if t > nanos_of(&m) {
                            Some(d)
                        } else {
                            Some(m)
                        },
                        None => Some(d),
                    };
                }
            }
            proof {
                assert(after.len() == i + 1);
                assert(forall|k: int| 0 <= k < i ==> after[k] == before[k]);
                assert(after[i as int] == self.nodes@[i as int]);
                lemma_extreme_step(before, after, old_lowest, lowest, true);
                lemma_extreme_step(before, after, old_highest, highest, false);
            }
            i += 1;
        }
        proof {
            assert(self.nodes@.take(i as int) == self.nodes@);
        }
        (total, active, lowest, highest)
    }
}

/// In a well-formed cache the position of an endpoint that is there is the
/// position of its one entry.
pub proof fn lemma_slot_is_entry(entries: Seq<RpcNode>, endpoint: Seq<char>)
    requires
        well_formed(entries),
        has_endpoint(entries, endpoint),
    ensures
        first_at(entries, endpoint, slot(entries, endpoint)),
        forall|i: int|
            0 <= i < entries.len() && (#[trigger] entries[i]).endpoint@ == endpoint ==> i == slot(
                entries,
                endpoint,
            ),
{
    let w = choose|i: int| 0 <= i < entries.len() && (#[trigger] entries[i]).endpoint@ == endpoint;
    assert forall|j: int| 0 <= j < w implies (#[trigger] entries[j]).endpoint@ != endpoint by {
        assert(entries[j].endpoint@ != entries[w].endpoint@);
    }
    assert(first_at(entries, endpoint, w));
    let at = slot(entries, endpoint);
    assert forall|i: int|
        0 <= i < entries.len() && (#[trigger] entries[i]).endpoint@ == endpoint implies i == at by {
        if i < at {
            assert(entries[i].endpoint@ != endpoint);
        } else if at < i {
            assert(entries[at].endpoint@ != entries[i].endpoint@);
        }
    }
}

/// Storing an entry keeps the cache well formed: still one entry per
/// endpoint, none empty, a response time with every active entry; and every
/// endpoint that was there stays at its position, so that no entry's
/// endpoint ever changes.
pub proof fn lemma_upsert_keeps_endpoints(entries: Seq<RpcNode>, stored: RpcNode)
    requires
        well_formed(entries),
        storable(stored),
    ensures
        well_formed(upserted(entries, stored)),
        upserted(entries, stored).len() >= entries.len(),
        forall|i: int|
            0 <= i < entries.len() ==> (#[trigger] upserted(entries, stored)[i]).endpoint@
                == entries[i].endpoint@,
{
    let after = upserted(entries, stored);
    if has_endpoint(entries, stored.endpoint@) {
        lemma_slot_is_entry(entries, stored.endpoint@);
    }
    let at = slot(entries, stored.endpoint@);
    assert forall|i: int| 0 <= i < entries.len() implies (#[trigger] after[i]).endpoint@
        == entries[i].endpoint@ by {}
    assert forall|i: int, j: int| 0 <= i < j < after.len() implies (#[trigger] after[i]).endpoint@ != (
    #[trigger] after[j]).endpoint@ by {
        if j < entries.len() {
            assert(entries[i].endpoint@ != entries[j].endpoint@);
            assert(after[i].endpoint@ == entries[i].endpoint@);
            assert(after[j].endpoint@ == entries[j].endpoint@);
        } else {
            assert(after[i].endpoint@ == entries[i].endpoint@);
        }
    }
    assert forall|i: int| 0 <= i < after.len() implies storable(#[trigger] after[i]) by {
        if i < entries.len() && i != at {
            assert(after[i] == entries[i]);
        }
    }
}

/// Removing an endpoint keeps the cache well formed, and what stays are
/// entries that were there, unchanged.
pub proof fn lemma_remove_keeps_entries(entries: Seq<RpcNode>, endpoint: Seq<char>)
    requires
        well_formed(entries),
    ensures
        well_formed(without(entries, endpoint)),
        !has_endpoint(without(entries, endpoint), endpoint),
        forall|i: int|
            0 <= i < without(entries, endpoint).len() ==> entries.contains(
                #[trigger] without(entries, endpoint)[i],
            ),
{
    let after = without(entries, endpoint);
    if has_endpoint(entries, endpoint) {
        lemma_slot_is_entry(entries, endpoint);
        let at = slot(entries, endpoint);
        assert forall|i: int| 0 <= i < after.len() implies entries.contains(#[trigger] after[i])
            && after[i].endpoint@ != endpoint && storable(after[i]) by {
            let i0 = if i < at { i } else { i + 1 };
            assert(after[i] == entries[i0]);
        }
        assert forall|i: int, j: int| 0 <= i < j < after.len() implies (#[trigger] after[i]).endpoint@
            != (#[trigger] after[j]).endpoint@ by {
            let i0 = if i < at { i } else { i + 1 };
            let j0 = if j < at { j } else { j + 1 };
            assert(after[i] == entries[i0] && after[j] == entries[j0]);
        }
    } else {
        assert forall|i: int| 0 <= i < after.len() implies entries.contains(#[trigger] after[i]) by {
            assert(after[i] == entries[i]);
        }
    }
}

/// In a well-formed cache every active entry has a response time, so the
/// selector always chooses among the fastest.
pub proof fn lemma_active_is_ranked(entries: Seq<RpcNode>)
    requires
        well_formed(entries),
    ensures
        forall|i: int| 0 <= i < entries.len() ==> (#[trigger] entries[i]).is_active == entries[i].ranked(),
        (active_entries(entries).len() > 0) == has_ranked(entries),
{
    assert forall|i: int| 0 <= i < entries.len() implies (#[trigger] entries[i]).is_active
        == entries[i].ranked() by {
        assert(storable(entries[i]));
    }
    if active_entries(entries).len() > 0 {
        let n = active_entries(entries)[0];
        entries.lemma_filter_pred(|e: RpcNode| e.is_active, 0);
        assert(active_entries(entries).contains(n));
        entries.lemma_filter_contains_rev(|e: RpcNode| e.is_active, n);
        let i = choose|i: int| 0 <= i < entries.len() && entries[i] == n;
        assert(entries[i].ranked());
    }
    if has_ranked(entries) {
        let i = choose|i: int| 0 <= i < entries.len() && (#[trigger] entries[i]).ranked();
        entries.lemma_filter_contains(|e: RpcNode| e.is_active, i);
    }
}

/// After an active node is stored, the list of active entries holds it, as
/// it was stored: with the response time that came with it.
pub proof fn lemma_stored_active_is_listed(entries: Seq<RpcNode>, stored: RpcNode)
    requires
        well_formed(entries),
        stored.is_active,
    ensures
        active_entries(upserted(entries, stored)).contains(stored),
{
    let after = upserted(entries, stored);
    if has_endpoint(entries, stored.endpoint@) {
        lemma_slot_is_entry(entries, stored.endpoint@);
    }
    let at = slot(entries, stored.endpoint@);
    assert(after[at] == stored);
    after.lemma_filter_contains(|e: RpcNode| e.is_active, at);
}

/// After an endpoint is removed nothing shows it: no entry has it, the list
/// of active entries does not hold it, and the selector cannot return it.
pub proof fn lemma_removed_is_unseen(
    entries: Seq<RpcNode>,
    endpoint: Seq<char>,
    chosen: Option<RpcNode>,
)
    requires
        well_formed(entries),
    ensures
        !has_endpoint(without(entries, endpoint), endpoint),
        forall|n: RpcNode| #[trigger]
            active_entries(without(entries, endpoint)).contains(n) ==> n.endpoint@ != endpoint,
        selection_allowed(without(entries, endpoint), chosen) && chosen is Some ==> chosen->0.endpoint@
            != endpoint,
{
    lemma_remove_keeps_entries(entries, endpoint);
    let after = without(entries, endpoint);
    assert forall|n: RpcNode| #[trigger] active_entries(after).contains(n) implies n.endpoint@
        != endpoint by {
        after.lemma_filter_contains_rev(|e: RpcNode| e.is_active, n);
        let i = choose|i: int| 0 <= i < after.len() && after[i] == n;
        assert(after[i].endpoint@ != endpoint);
    }
    if selection_allowed(after, chosen) && chosen is Some {
        let n = chosen->0;
        let i = choose|i: int| 0 <= i < after.len() && after[i] == n;
        assert(after[i].endpoint@ != endpoint);
    }
}

} // verus!

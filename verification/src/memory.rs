//! The agent's memory of past sessions: the summaries kept per branch,
//! which of them are handed to the model (the newest first), and how the
//! list is kept short.
use vstd::prelude::*;
use crate::agent::keep_last;
use crate::context::{first_n, MAX_SUMMARIES};

verus! {

broadcast use vstd::string::group_string_axioms;

/// A summary of a past session on a branch, with when it was written
/// (milliseconds since the Unix epoch).
pub struct SessionMemory {
    pub branch: String,
    pub summary: String,
    pub timestamp_ms: u128,
}

pub open spec fn timestamps(items: Seq<SessionMemory>) -> Seq<u128> {
    Seq::new(items.len(), |i: int| items[i].timestamp_ms)
}

/// Where a summary written at `t` goes in a list ordered newest first: in
/// front of the first one that is not newer, searching from `k`.
pub open spec fn insert_pos_from(order: Seq<int>, ts: Seq<u128>, t: u128, k: int) -> int
    decreases order.len() - k,
{
    if k < 0 || k >= order.len() {
        order.len() as int
    } else if ts[order[k]] <= t {
        k
    } else {
        insert_pos_from(order, ts, t, k + 1)
    }
}

/// The positions of the first `n` summaries, newest first; of two written
/// at the same time, the later in the list comes first (the order of a
/// stable sort by time, reversed).
pub open spec fn newest_order(ts: Seq<u128>, n: nat) -> Seq<int>
    decreases n,
{
    if n == 0 {
        Seq::empty()
    } else {
        let o = newest_order(ts, (n - 1) as nat);
        o.insert(insert_pos_from(o, ts, ts[n - 1], 0), n - 1)
    }
}

/// The `count` most recent summaries, newest first.
pub open spec fn recent_of(items: Seq<SessionMemory>, count: nat) -> Seq<Seq<char>> {
    let o = newest_order(timestamps(items), items.len());
    first_n(Seq::new(o.len(), |j: int| items[o[j]].summary@), count)
}

proof fn lemma_insert_pos_bounds(order: Seq<int>, ts: Seq<u128>, t: u128, k: int)
    requires
        0 <= k <= order.len(),
    ensures
        k <= insert_pos_from(order, ts, t, k) <= order.len(),
    decreases order.len() - k,
{
    if k < order.len() && !(ts[order[k]] <= t) {
        lemma_insert_pos_bounds(order, ts, t, k + 1);
    }
}

proof fn lemma_order_shape(ts: Seq<u128>, n: nat)
    ensures
        newest_order(ts, n).len() == n,
        forall|j: int| 0 <= j < n ==> 0 <= #[trigger] newest_order(ts, n)[j] < n,
    decreases n,
{
    if n > 0 {
        let o = newest_order(ts, (n - 1) as nat);
        lemma_order_shape(ts, (n - 1) as nat);
        lemma_insert_pos_bounds(o, ts, ts[n - 1], 0);
        let p = insert_pos_from(o, ts, ts[n - 1], 0);
        let r = o.insert(p, n - 1);
        assert forall|j: int| 0 <= j < n implies 0 <= #[trigger] r[j] < n by {
            if j < p {
                assert(r[j] == o[j]);
            } else if j > p {
                assert(r[j] == o[j - 1]);
            }
        }
    }
}

/// The `count` most recent summaries of a branch, newest first.
pub fn recent_summaries(items: &Vec<SessionMemory>, count: usize) -> (out: Vec<String>)
    ensures
        Seq::new(out@.len(), |j: int| out@[j]@) == recent_of(items@, count as nat),
{
    let ghost ts = timestamps(items@);
    let mut order: Vec<usize> = Vec::new();
    let mut i: usize = 0;
    while i < items.len()
        invariant
            i <= items.len(),
            ts == timestamps(items@),
            Seq::new(order@.len(), |j: int| order@[j] as int) == newest_order(ts, i as nat),
        decreases items.len() - i,
    {
        let ghost o = newest_order(ts, i as nat);
        proof {
            lemma_order_shape(ts, i as nat);
        }
        let t = items[i].timestamp_ms;
        let mut k: usize = 0;
        while k < order.len() && items[order[k]].timestamp_ms > t
            invariant
                k <= order.len(),
                ts == timestamps(items@),
                i < items.len(),
                t == ts[i as int],
                o == newest_order(ts, i as nat),
                o.len() == i,
                forall|j: int| 0 <= j < i ==> 0 <= #[trigger] o[j] < i,
                Seq::new(order@.len(), |j: int| order@[j] as int) == o,
                insert_pos_from(o, ts, t, 0) == insert_pos_from(o, ts, t, k as int),
            decreases order.len() - k,
        {
            assert(o[k as int] == order@[k as int] as int);
            k += 1;
        }
        assert(insert_pos_from(o, ts, t, 0) == k as int) by {
            if k < order.len() {
                assert(o[k as int] == order@[k as int] as int);
            }
        }
        order.insert(k, i);
        assert(Seq::new(order@.len(), |j: int| order@[j] as int) =~= o.insert(k as int, i as int));
        i += 1;
    }
    proof {
        lemma_order_shape(ts, items@.len());
    }
    let ghost o = newest_order(ts, items@.len());
    let ghost all = Seq::new(o.len(), |j: int| items@[o[j]].summary@);
    let n = if count < order.len() { count } else { order.len() };
    let mut out: Vec<String> = Vec::new();
    let mut j: usize = 0;
    while j < n
        invariant
            j <= n,
            n <= order.len(),
            n == (if count < order.len() { count } else { order.len() }),
            o == newest_order(ts, items@.len()),
            o.len() == items@.len(),
            forall|q: int| 0 <= q < o.len() ==> 0 <= #[trigger] o[q] < items@.len(),
            Seq::new(order@.len(), |q: int| order@[q] as int) == o,
            all == Seq::new(o.len(), |q: int| items@[o[q]].summary@),
            Seq::new(out@.len(), |q: int| out@[q]@) == all.take(j as int),
        decreases n - j,
    {
        assert(o[j as int] == order@[j as int] as int);
        let s = items[order[j]].summary.clone();
        assert(s@ == all[j as int]);
        let ghost prev = Seq::new(out@.len(), |q: int| out@[q]@);
        let ghost sv = s@;
        out.push(s);
        assert(Seq::new(out@.len(), |q: int| out@[q]@) =~= prev.push(sv));
        assert(all.take(j + 1) =~= all.take(j as int).push(all[j as int]));
        j += 1;
    }
    assert(all.take(n as int) =~= first_n(all, count as nat));
    out
}

/// Adds a summary to a branch's list, keeping only the newest 24.
pub fn add_summary(entries: &mut Vec<SessionMemory>, entry: SessionMemory)
    ensures
        final(entries)@ == keep_last(old(entries)@.push(entry), MAX_SUMMARIES as nat),
{
    let ghost all = old(entries)@.push(entry);
    entries.push(entry);
    assert(all.len() == entries.len());
    let mut dropped: usize = 0;
    while entries.len() > MAX_SUMMARIES
        invariant
            entries@ == all.skip(dropped as int),
            dropped <= all.len(),
            all.len() <= usize::MAX,
            all.len() <= MAX_SUMMARIES ==> dropped == 0,
            all.len() > MAX_SUMMARIES ==> dropped <= all.len() - MAX_SUMMARIES,
        decreases entries.len(),
    {
        entries.remove(0);
        assert(entries@ =~= all.skip(dropped + 1));
        dropped += 1;
    }
    assert(keep_last(all, MAX_SUMMARIES as nat) =~= all.skip(dropped as int));
}

/// What is read back of a write: a summary written no earlier than any
/// the branch keeps is the first one handed out after it is added.
pub proof fn law_summary_read_back(entries: Seq<SessionMemory>, entry: SessionMemory)
    requires
        forall|i: int| 0 <= i < entries.len() ==> #[trigger] entries[i].timestamp_ms <= entry.timestamp_ms,
    ensures
        recent_of(keep_last(entries.push(entry), MAX_SUMMARIES as nat), 1) == seq![entry.summary@],
{
    let all = entries.push(entry);
    let items = keep_last(all, MAX_SUMMARIES as nat);
    let n = items.len();
    let t = entry.timestamp_ms;
    let ts = timestamps(items);
    assert(n > 0 && items[n - 1] == entry);
    assert forall|i: int| 0 <= i < n implies #[trigger] ts[i] <= t by {
        if all.len() > MAX_SUMMARIES {
            let k = i + all.len() - MAX_SUMMARIES;
            assert(items[i] == all[k]);
            if k < entries.len() {
                assert(all[k] == entries[k]);
            }
        } else if i < entries.len() {
            assert(items[i] == entries[i]);
        }
    }
    let o = newest_order(ts, (n - 1) as nat);
    lemma_order_shape(ts, (n - 1) as nat);
    assert(insert_pos_from(o, ts, ts[n - 1], 0) == 0) by {
        if o.len() > 0 {
            assert(0 <= o[0] < n - 1);
            assert(ts[o[0]] <= t);
        }
    }
    let order = newest_order(ts, n as nat);
    assert(order == o.insert(0, n - 1));
    assert(order[0] == n - 1);
    lemma_order_shape(ts, n as nat);
    let full = Seq::new(order.len(), |j: int| items[order[j]].summary@);
    assert(first_n(full, 1) =~= seq![entry.summary@]);
}

} // verus!

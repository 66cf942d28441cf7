//! Tables of named, time-stamped entries and their clean-up: entries older than
//! a time-to-live are dropped, and the least recently used ones are evicted
//! while the table exceeds its size limit.

use vstd::prelude::*;
use crate::named_map::{key_index, distinct_keys, lemma_key_index};

verus! {

/// A value that carries the time (ms) of its last use.
pub trait Stamped {
    /// The time of last use.
    spec fn stamp_spec(&self) -> u64;

    /// The time of last use.
    fn stamp(&self) -> (r: u64)
        ensures
            r == self.stamp_spec(),
    ;
}

/// `a - b`, or zero when `b > a`.
pub open spec fn sat_sub(a: u64, b: u64) -> u64 {
    if a >= b { (a - b) as u64 } else { 0 }
}

/// An entry is fresh at time `now` when it was used less than `ttl_ms` ago.
pub open spec fn fresh_at<V: Stamped>(now: u64, ttl_ms: u64) -> spec_fn((String, V)) -> bool {
    |e: (String, V)| sat_sub(now, e.1.stamp_spec()) < ttl_ms
}

/// Index of the least recently used entry: the first one with the smallest stamp.
pub open spec fn oldest_index<V: Stamped>(s: Seq<(String, V)>) -> int
    decreases s.len(),
{
    if s.len() <= 1 {
        0
    } else {
        let j = oldest_index(s.drop_last());
        if s.last().1.stamp_spec() < s[j].1.stamp_spec() {
            s.len() - 1
        } else {
            j
        }
    }
}

/// Removes least recently used entries, one at a time, until at most `max` remain.
pub open spec fn evict_lru<V: Stamped>(s: Seq<(String, V)>, max: nat) -> Seq<(String, V)>
    decreases s.len(),
{
    if s.len() <= max {
        s
    } else {
        proof {
            lemma_oldest_index(s);
        }
        evict_lru(s.remove(oldest_index(s)), max)
    }
}

/// The table after clean-up at time `now`: entries used `ttl_ms` or more ago are
/// dropped, then least recently used entries are evicted down to `max`.
pub open spec fn cleaned<V: Stamped>(s: Seq<(String, V)>, now: u64, ttl_ms: u64, max: nat) -> Seq<(String, V)> {
    evict_lru(s.filter(fresh_at(now, ttl_ms)), max)
}

/// The oldest index lies in range and no entry is older.
pub proof fn lemma_oldest_index<V: Stamped>(s: Seq<(String, V)>)
    requires
        s.len() > 0,
    ensures
        0 <= oldest_index(s) < s.len(),
        forall|k: int| 0 <= k < s.len() ==> s[oldest_index(s)].1.stamp_spec() <= #[trigger] s[k].1.stamp_spec(),
    decreases s.len(),
{
    if s.len() > 1 {
        lemma_oldest_index(s.drop_last());
        assert(forall|k: int| 0 <= k < s.len() - 1 ==> s.drop_last()[k] == s[k]);
    }
}

/// Eviction leaves `min(len, max)` entries.
pub proof fn lemma_evict_len<V: Stamped>(s: Seq<(String, V)>, max: nat)
    ensures
        evict_lru(s, max).len() == if s.len() <= max { s.len() } else { max },
    decreases s.len(),
{
    if s.len() > max {
        lemma_oldest_index(s);
        lemma_evict_len(s.remove(oldest_index(s)), max);
    }
}

/// Every entry that eviction keeps was in the table, and every entry that it
/// drops is no more recently used than any entry it keeps.
pub proof fn lemma_evict_keeps_recent<V: Stamped>(s: Seq<(String, V)>, max: nat)
    ensures
        forall|k: int| 0 <= k < evict_lru(s, max).len() ==> s.contains(#[trigger] evict_lru(s, max)[k]),
        forall|d: int, k: int|
            0 <= d < s.len() && 0 <= k < evict_lru(s, max).len() && !evict_lru(s, max).contains(s[d])
            ==> (#[trigger] s[d]).1.stamp_spec() <= (#[trigger] evict_lru(s, max)[k]).1.stamp_spec(),
    decreases s.len(),
{
    if s.len() > max {
        let o = oldest_index(s);
        lemma_oldest_index(s);
        let r = s.remove(o);
        lemma_evict_keeps_recent(r, max);
        let e = evict_lru(r, max);
        assert(e == evict_lru(s, max));
        assert forall|k: int| 0 <= k < e.len() implies s.contains(#[trigger] e[k]) by {
            let j = choose|j: int| 0 <= j < r.len() && r[j] == e[k];
            if j < o {
                assert(s[j] == e[k]);
            } else {
                assert(s[j + 1] == e[k]);
            }
        }
        assert forall|d: int, k: int|
            0 <= d < s.len() && 0 <= k < e.len() && !e.contains(s[d])
            implies (#[trigger] s[d]).1.stamp_spec() <= (#[trigger] e[k]).1.stamp_spec() by {
            let j = choose|j: int| 0 <= j < r.len() && r[j] == e[k];
            let sj = if j < o { j } else { j + 1 };
            assert(s[sj] == e[k]);
            if d == o {
            } else {
                let dr = if d < o { d } else { d - 1 };
                assert(r[dr] == s[d]);
            }
        }
    }
}

/// Filtering keeps names distinct.
pub proof fn lemma_filter_distinct<V>(s: Seq<(String, V)>, p: spec_fn((String, V)) -> bool)
    requires
        distinct_keys(s),
    ensures
        distinct_keys(s.filter(p)),
    decreases s.len(),
{
    reveal(Seq::filter);
    if s.len() > 0 {
        lemma_filter_distinct(s.drop_last(), p);
        let f = s.drop_last().filter(p);
        if p(s.last()) {
            assert forall|i: int| 0 <= i < f.len() implies f[i].0@ != s.last().0@ by {
                assert(f.contains(f[i]));
                s.drop_last().lemma_filter_contains_rev(p, f[i]);
                let j = choose|j: int| 0 <= j < s.drop_last().len() && s.drop_last()[j] == f[i];
                assert(s[j] == f[i]);
            }
        }
    }
}

/// Drops the entries used `ttl_ms` or more before `now`, keeping the order of the others.
pub fn retain_fresh<V: Stamped>(v: &mut Vec<(String, V)>, now: u64, ttl_ms: u64)
    ensures
        final(v)@ == old(v)@.filter(fresh_at(now, ttl_ms)),
{
    let ghost s = v@;
    let mut i = v.len();
    proof {
        assert(s.take(i as int) =~= s);
        assert(s.skip(i as int) =~= Seq::<(String, V)>::empty());
        reveal(Seq::filter);
        assert(s.take(i as int) + s.skip(i as int).filter(fresh_at(now, ttl_ms)) =~= s);
    }
    while i > 0
        invariant
            i <= s.len(),
            v@ == s.take(i as int) + s.skip(i as int).filter(fresh_at(now, ttl_ms)),
        decreases i,
    {
        let ghost p = fresh_at::<V>(now, ttl_ms);
        let stamp = v[i - 1].1.stamp();
        proof {
            assert(v@[i - 1] == s[i - 1]);
            assert(s.skip(i - 1) =~= seq![s[i - 1]] + s.skip(i as int));
            s.skip(i as int).lemma_filter_prepend(s[i - 1], p);
        }
        let fresh = now.saturating_sub(stamp) < ttl_ms;
        if !fresh {
            v.remove(i - 1);
            proof {
                assert(v@ =~= s.take(i - 1) + s.skip(i - 1).filter(p));
            }
        } else {
            proof {
                assert(v@ =~= s.take(i - 1) + s.skip(i - 1).filter(p));
            }
        }
        i = i - 1;
    }
    proof {
        assert(s.skip(0) =~= s);
        assert(s.take(0) + s.filter(fresh_at(now, ttl_ms)) =~= s.filter(fresh_at(now, ttl_ms)));
    }
}

/// Position of the least recently used entry (the first one with the smallest stamp).
pub fn oldest_position<V: Stamped>(v: &Vec<(String, V)>) -> (r: usize)
    requires
        v@.len() > 0,
    ensures
        r == oldest_index(v@),
{
    let mut best: usize = 0;
    let mut best_stamp = v[0].1.stamp();
    let mut i: usize = 1;
    while i < v.len()
        invariant
            1 <= i <= v@.len(),
            best == oldest_index(v@.take(i as int)),
            best < i,
            best_stamp == v@[best as int].1.stamp_spec(),
        decreases v@.len() - i,
    {
        proof {
            assert(v@.take(i + 1).drop_last() =~= v@.take(i as int));
            assert(v@.take(i + 1).last() == v@[i as int]);
            assert(v@.take(i + 1)[best as int] == v@[best as int]);
        }
        let st = v[i].1.stamp();
        if st < best_stamp {
            best = i;
            best_stamp = st;
        }
        i = i + 1;
    }
    proof {
        assert(v@.take(v@.len() as int) =~= v@);
    }
    best
}

/// Evicts least recently used entries until at most `max` remain.
pub fn evict_to<V: Stamped>(v: &mut Vec<(String, V)>, max: usize)
    ensures
        final(v)@ == evict_lru(old(v)@, max as nat),
{
    while v.len() > max
        invariant
            evict_lru(v@, max as nat) == evict_lru(old(v)@, max as nat),
        decreases v@.len(),
    {
        let o = oldest_position(v);
        proof {
            lemma_oldest_index(v@);
        }
        v.remove(o);
    }
}

/// Clean-up at time `now`: drops stale entries, then evicts least recently used
/// ones down to `max`.
pub fn clean_table<V: Stamped>(v: &mut Vec<(String, V)>, now: u64, ttl_ms: u64, max: usize)
    ensures
        final(v)@ == cleaned(old(v)@, now, ttl_ms, max as nat),
{
    retain_fresh(v, now, ttl_ms);
    evict_to(v, max);
}

} // verus!

//! Ring buffer of latency samples and the percentiles computed from it.

use vstd::prelude::*;
use vstd::relations::{sorted_by, total_ordering};

verus! {

broadcast use vstd::seq_lib::group_to_multiset_ensures;

/// Number of latency samples a buffer holds.
pub const LATENCY_BUFFER_SIZE: usize = 1000;

/// The order on samples.
pub open spec fn sample_leq() -> spec_fn(u64, u64) -> bool {
    |a: u64, b: u64| a <= b
}

/// Samples that count towards the percentiles: those greater than zero.
pub open spec fn is_positive() -> spec_fn(u64) -> bool {
    |x: u64| x > 0
}

/// The samples of `s` that are greater than zero, in buffer order.
pub open spec fn positive_samples(s: Seq<u64>) -> Seq<u64> {
    s.filter(is_positive())
}

/// The samples of `s` in ascending order.
pub open spec fn ascending(s: Seq<u64>) -> Seq<u64> {
    s.sort_by(sample_leq())
}

/// Sum of a sequence of samples.
pub open spec fn sample_sum(s: Seq<u64>) -> nat
    decreases s.len(),
{
    if s.len() == 0 {
        0
    } else {
        sample_sum(s.drop_last()) + s.last() as nat
    }
}

/// `(average, p50, p95, p99)` of the positive samples in `s`, or all zero when there are none.
/// The p-th percentile is the element at index `len * p / 100` of the ascending samples.
pub open spec fn percentiles_of(s: Seq<u64>) -> (u64, u64, u64, u64) {
    let f = positive_samples(s);
    let n = f.len();
    if n == 0 {
        (0, 0, 0, 0)
    } else {
        let t = ascending(f);
        (
            (sample_sum(f) / n) as u64,
            t[(n * 50 / 100) as int],
            t[(n * 95 / 100) as int],
            t[(n * 99 / 100) as int],
        )
    }
}

/// `x + 1`, wrapping to zero after `u64::MAX` (what an atomic `fetch_add(1)` stores).
pub open spec fn wrapping_inc(x: u64) -> u64 {
    if x == u64::MAX {
        0
    } else {
        (x + 1) as u64
    }
}

/// The buffer after recording `x`: the slot `index % LATENCY_BUFFER_SIZE` is
/// overwritten, the write position advances (wrapping), the count grows up to the size.
pub open spec fn recorded(b: LatencyBufferView, x: u64) -> LatencyBufferView {
    LatencyBufferView {
        samples: b.samples.update((b.index % (LATENCY_BUFFER_SIZE as u64)) as int, x),
        index: wrapping_inc(b.index),
        count: if b.count < LATENCY_BUFFER_SIZE { (b.count + 1) as u64 } else { LATENCY_BUFFER_SIZE as u64 },
    }
}

/// The buffer after recording the samples of `xs` one after another.
pub open spec fn recorded_all(b: LatencyBufferView, xs: Seq<u64>) -> LatencyBufferView
    decreases xs.len(),
{
    if xs.len() == 0 {
        b
    } else {
        recorded(recorded_all(b, xs.drop_last()), xs.last())
    }
}

/// A buffer with all slots zero and no valid sample.
pub open spec fn empty_buffer() -> LatencyBufferView {
    LatencyBufferView { samples: Seq::new(LATENCY_BUFFER_SIZE as nat, |i: int| 0u64), index: 0, count: 0 }
}

/// Fixed-size ring buffer of latency samples in microseconds.
///
/// Once full, new samples overwrite the oldest ones; `count` is the number of
/// valid samples, capped at the buffer size.
#[derive(Debug)]
pub struct LatencyBuffer {
    samples: Vec<u64>,
    index: u64,
    count: u64,
}

/// The abstract state of a latency buffer.
#[verifier::ext_equal]
pub ghost struct LatencyBufferView {
    pub samples: Seq<u64>,
    pub index: u64,
    pub count: u64,
}

impl View for LatencyBuffer {
    type V = LatencyBufferView;

    closed spec fn view(&self) -> LatencyBufferView {
        LatencyBufferView { samples: self.samples@, index: self.index, count: self.count }
    }
}

impl LatencyBuffer {
    /// The buffer holds exactly `LATENCY_BUFFER_SIZE` slots and `count` never exceeds it.
    pub open spec fn wf(&self) -> bool {
        &&& self@.samples.len() == LATENCY_BUFFER_SIZE
        &&& self@.count <= LATENCY_BUFFER_SIZE
    }

    /// Creates an empty buffer: all slots zero, no valid samples.
    pub fn new() -> (b: Self)
        ensures
            b.wf(),
            b@ == empty_buffer(),
    {
        let mut samples: Vec<u64> = Vec::new();
        let mut i: usize = 0;
        while i < LATENCY_BUFFER_SIZE
            invariant
                i <= LATENCY_BUFFER_SIZE,
                samples@ == Seq::new(i as nat, |j: int| 0u64),
            decreases LATENCY_BUFFER_SIZE - i,
        {
            samples.push(0);
            i = i + 1;
        }
        LatencyBuffer { samples, index: 0, count: 0 }
    }

    /// Number of valid samples (capped at the buffer size).
    pub fn count(&self) -> (c: u64)
        ensures
            c == self@.count,
    {
        self.count
    }

    /// Records a sample in the slot `index % LATENCY_BUFFER_SIZE`, advances the
    /// write position (wrapping) and increments the count up to the buffer size.
    pub fn record(&mut self, latency_us: u64)
        requires
            old(self).wf(),
        ensures
            final(self).wf(),
            final(self)@ == recorded(old(self)@, latency_us),
    {
        let idx = self.index % (LATENCY_BUFFER_SIZE as u64);
        self.index = self.index.wrapping_add(1);
        self.samples.set(idx as usize, latency_us);
        if self.count < LATENCY_BUFFER_SIZE as u64 {
            self.count = self.count + 1;
        }
    }

    /// Average, p50, p95 and p99 of the samples greater than zero; all zero when there are none.
    pub fn calculate_percentiles(&self) -> (r: (u64, u64, u64, u64))
        requires
            self.wf(),
        ensures
            r == percentiles_of(self@.samples),
            latency_statistics(self@.samples, r),
    {
        proof {
            lemma_percentiles_are_order_statistics(self@.samples);
        }
        let f = positive_of(&self.samples);
        let n = f.len();
        if n == 0 {
            return (0, 0, 0, 0);
        }
        let t = sort_ascending(&f);
        proof {
            lemma_ascending_unique(f@, t@);
        }
        let total = sum_of(&f);
        let avg = (total / (n as u128)) as u64;
        proof {
            lemma_sum_bound(f@);
            assert(total / (n as u128) <= u64::MAX) by (nonlinear_arith)
                requires
                    total <= n * u64::MAX,
                    n > 0,
            ;
        }
        let p50 = t[n * 50 / 100];
        let p95 = t[n * 95 / 100];
        let p99 = t[n * 99 / 100];
        (avg, p50, p95, p99)
    }
}

impl Default for LatencyBuffer {
    /// An empty buffer.
    fn default() -> (b: Self)
        ensures
            b.wf(),
            b@ == empty_buffer(),
    {
        LatencyBuffer::new()
    }
}

/// The positive samples, in order.
fn positive_of(s: &Vec<u64>) -> (f: Vec<u64>)
    requires
        s@.len() <= LATENCY_BUFFER_SIZE,
    ensures
        f@ == positive_samples(s@),
{
    let mut f: Vec<u64> = Vec::new();
    let mut i: usize = 0;
    proof {
        reveal(Seq::filter);
        assert(s@.take(0) =~= Seq::<u64>::empty());
    }
    while i < s.len()
        invariant
            i <= s@.len(),
            f@ == s@.take(i as int).filter(is_positive()),
        decreases s@.len() - i,
    {
        let x = s[i];
        proof {
            reveal(Seq::filter);
            assert(s@.take(i + 1).drop_last() =~= s@.take(i as int));
        }
        if x > 0 {
            f.push(x);
        }
        i = i + 1;
    }
    proof {
        assert(s@.take(s@.len() as int) =~= s@);
    }
    f
}

/// Sum of the samples, computed in 128 bits (it cannot overflow for a buffer-sized input).
fn sum_of(f: &Vec<u64>) -> (total: u128)
    requires
        f@.len() <= LATENCY_BUFFER_SIZE,
    ensures
        total == sample_sum(f@),
{
    let mut total: u128 = 0;
    let mut i: usize = 0;
    while i < f.len()
        invariant
            i <= f@.len(),
            f@.len() <= LATENCY_BUFFER_SIZE,
            total == sample_sum(f@.take(i as int)),
        decreases f@.len() - i,
    {
        proof {
            assert(f@.take(i + 1).drop_last() =~= f@.take(i as int));
            lemma_sum_bound(f@.take(i as int));
            assert(total + f@[i as int] <= (i + 1) * u64::MAX) by (nonlinear_arith)
                requires
                    total <= i * u64::MAX,
                    f@[i as int] <= u64::MAX,
            ;
            assert((i + 1) * u64::MAX <= 1000 * u64::MAX) by (nonlinear_arith)
                requires
                    i < 1000,
            ;
        }
        total = total + f[i] as u128;
        i = i + 1;
    }
    proof {
        assert(f@.take(f@.len() as int) =~= f@);
    }
    total
}

/// The sum of `n` samples is at most `n * u64::MAX`.
proof fn lemma_sum_bound(s: Seq<u64>)
    ensures
        sample_sum(s) <= s.len() * u64::MAX,
    decreases s.len(),
{
    if s.len() > 0 {
        lemma_sum_bound(s.drop_last());
        assert(sample_sum(s.drop_last()) + s.last() <= s.len() * u64::MAX) by (nonlinear_arith)
            requires
                sample_sum(s.drop_last()) <= (s.len() - 1) * u64::MAX,
                s.last() <= u64::MAX,
                s.len() >= 1,
        ;
    }
}

proof fn lemma_leq_total()
    ensures
        total_ordering(sample_leq()),
{
}

/// A sorted permutation of `f` is `ascending(f)`.
proof fn lemma_ascending_unique(f: Seq<u64>, t: Seq<u64>)
    requires
        sorted_by(t, sample_leq()),
        t.to_multiset() == f.to_multiset(),
    ensures
        t == ascending(f),
{
    lemma_leq_total();
    f.lemma_sort_by_ensures(sample_leq());
    vstd::seq_lib::lemma_sorted_unique(t, ascending(f), sample_leq());
}

/// Insertion sort: an ascending permutation of `f`.
fn sort_ascending(f: &Vec<u64>) -> (t: Vec<u64>)
    ensures
        sorted_by(t@, sample_leq()),
        t@.to_multiset() == f@.to_multiset(),
        t@.len() == f@.len(),
{
    let mut t: Vec<u64> = Vec::new();
    let mut i: usize = 0;
    proof {
        assert(f@.take(0) =~= Seq::<u64>::empty());
    }
    while i < f.len()
        invariant
            i <= f@.len(),
            sorted_by(t@, sample_leq()),
            t@.to_multiset() == f@.take(i as int).to_multiset(),
            t@.len() == i,
        decreases f@.len() - i,
    {
        let x = f[i];
        let mut pos: usize = 0;
        while pos < t.len() && t[pos] <= x
            invariant
                pos <= t@.len(),
                forall|j: int| 0 <= j < pos ==> t@[j] <= x,
            decreases t@.len() - pos,
        {
            pos = pos + 1;
        }
        let ghost old_t = t@;
        t.insert(pos, x);
        proof {
            assert(t@ == old_t.insert(pos as int, x));
            assert forall|a: int, b: int| 0 <= a < b < t@.len() implies #[trigger] (sample_leq())(
                t@[a],
                t@[b],
            ) by {
                if b < pos {
                    assert((sample_leq())(old_t[a], old_t[b]));
                } else if b == pos {
                } else if a < pos {
                    assert((sample_leq())(old_t[a], old_t[b - 1]));
                } else if a == pos {
                    assert(!(old_t[pos as int] <= x));
                    if b - 1 > pos {
                        assert((sample_leq())(old_t[pos as int], old_t[b - 1]));
                    }
                } else {
                    assert((sample_leq())(old_t[a - 1], old_t[b - 1]));
                }
            }
            assert(f@.take(i + 1) =~= f@.take(i as int).push(x));
        }
        i = i + 1;
    }
    proof {
        assert(f@.take(f@.len() as int) =~= f@);
    }
    t
}

/// Recording `n` samples in a new buffer: the count is `min(n, LATENCY_BUFFER_SIZE)`,
/// the write position is `n`, the sample recorded `i`-th (from zero) sits in slot
/// `i % LATENCY_BUFFER_SIZE` as long as fewer than `LATENCY_BUFFER_SIZE` samples
/// came after it, and slots never written are still zero.
pub proof fn lemma_recorded_all_from_empty(xs: Seq<u64>)
    requires
        xs.len() <= u64::MAX,
    ensures
        ({
            let b = recorded_all(empty_buffer(), xs);
            &&& b.samples.len() == LATENCY_BUFFER_SIZE
            &&& b.count == if xs.len() < LATENCY_BUFFER_SIZE { xs.len() } else { LATENCY_BUFFER_SIZE as nat }
            &&& b.index == xs.len()
            &&& forall|i: int| 0 <= i < xs.len() && xs.len() - LATENCY_BUFFER_SIZE <= i
                ==> b.samples[i % (LATENCY_BUFFER_SIZE as int)] == #[trigger] xs[i]
            &&& forall|k: int| xs.len() <= k < LATENCY_BUFFER_SIZE ==> #[trigger] b.samples[k] == 0
        }),
    decreases xs.len(),
{
    if xs.len() > 0 {
        let ys = xs.drop_last();
        lemma_recorded_all_from_empty(ys);
        let a = recorded_all(empty_buffer(), ys);
        let n = xs.len() as int;
        let slot = (n - 1) % 1000;
        assert(a.index == n - 1);
        assert(a.index % 1000 == slot);
        assert forall|i: int| 0 <= i < n && n - 1000 <= i
            implies recorded_all(empty_buffer(), xs).samples[i % 1000] == #[trigger] xs[i] by {
            if i < n - 1 {
                assert(ys[i] == xs[i]);
                assert(i % 1000 != slot);
            }
        }
    }
}

/// Samples at most `v`.
pub open spec fn at_most(v: u64) -> spec_fn(u64) -> bool {
    |x: u64| x <= v
}

/// Samples below `v`.
pub open spec fn below(v: u64) -> spec_fn(u64) -> bool {
    |x: u64| x < v
}

/// `v` is the `k`-th smallest of the samples `f` (counting from zero): it is
/// one of them, more than `k` of them are at most `v`, and at most `k` of
/// them are below `v`.
pub open spec fn order_statistic(f: Seq<u64>, v: u64, k: nat) -> bool {
    &&& f.contains(v)
    &&& f.filter(at_most(v)).len() > k
    &&& f.filter(below(v)).len() <= k
}

/// What latency statistics `r = (avg, p50, p95, p99)` are for the buffer
/// slots `s`: over the `n` samples greater than zero, `avg` is their mean
/// rounded down and the p-th percentile is their `n * p / 100`-th smallest
/// (so the three percentiles are ordered); with no such sample, all four are zero.
pub open spec fn latency_statistics(s: Seq<u64>, r: (u64, u64, u64, u64)) -> bool {
    let f = s.filter(|x: u64| x > 0);
    let n = f.len();
    &&& n == 0 ==> r == (0u64, 0u64, 0u64, 0u64)
    &&& n > 0 ==> {
        &&& order_statistic(f, r.1, n * 50 / 100)
        &&& order_statistic(f, r.2, n * 95 / 100)
        &&& order_statistic(f, r.3, n * 99 / 100)
        &&& r.1 <= r.2 <= r.3
        &&& r.0 * n <= sample_sum(f) < (r.0 + 1) * n
    }
}

/// A predicate holding of every element keeps the whole sequence.
proof fn lemma_filter_all(s: Seq<u64>, p: spec_fn(u64) -> bool)
    requires
        forall|i: int| 0 <= i < s.len() ==> p(#[trigger] s[i]),
    ensures
        s.filter(p).len() == s.len(),
    decreases s.len(),
{
    reveal(Seq::filter);
    if s.len() > 0 {
        lemma_filter_all(s.drop_last(), p);
    }
}

/// A predicate holding of no element keeps nothing.
proof fn lemma_filter_none(s: Seq<u64>, p: spec_fn(u64) -> bool)
    requires
        forall|i: int| 0 <= i < s.len() ==> !p(#[trigger] s[i]),
    ensures
        s.filter(p).len() == 0,
    decreases s.len(),
{
    reveal(Seq::filter);
    if s.len() > 0 {
        lemma_filter_none(s.drop_last(), p);
    }
}

/// Filtering never lengthens a sequence.
proof fn lemma_filter_shorter(s: Seq<u64>, p: spec_fn(u64) -> bool)
    ensures
        s.filter(p).len() <= s.len(),
    decreases s.len(),
{
    reveal(Seq::filter);
    if s.len() > 0 {
        lemma_filter_shorter(s.drop_last(), p);
    }
}

/// How many elements pass a filter depends only on the multiset of elements.
proof fn lemma_filter_len_permutation(a: Seq<u64>, b: Seq<u64>, p: spec_fn(u64) -> bool)
    requires
        a.to_multiset() == b.to_multiset(),
    ensures
        a.filter(p).len() == b.filter(p).len(),
    decreases a.len(),
{
    reveal(Seq::filter);
    assert(a.to_multiset().len() == a.len());
    assert(b.to_multiset().len() == b.len());
    if a.len() == 0 {
        assert(b.len() == 0);
    } else {
        let x = a.last();
        let a1 = a.drop_last();
        assert(a1.push(x) == a);
        assert(a.to_multiset().count(x) > 0);
        assert(b.contains(x));
        let j = choose|j: int| 0 <= j < b.len() && b[j] == x;
        let b1 = b.remove(j);
        assert(b1.to_multiset() == b.to_multiset().remove(x));
        assert(a1.to_multiset() =~= a.to_multiset().remove(x));
        lemma_filter_len_permutation(a1, b1, p);
        let l = b.take(j);
        let r = b.skip(j + 1);
        assert(b1 =~= l + r);
        assert(b =~= l + seq![x] + r);
        Seq::filter_distributes_over_add(l, r, p);
        Seq::filter_distributes_over_add(l, seq![x], p);
        Seq::filter_distributes_over_add(l + seq![x], r, p);
        assert(seq![x].drop_last() =~= Seq::<u64>::empty());
        assert(Seq::<u64>::empty().filter(p) =~= Seq::<u64>::empty());
        assert(seq![x].filter(p).len() == if p(x) { 1int } else { 0int });
    }
}

/// In a sorted sequence, the element at `k` is the `k`-th smallest.
proof fn lemma_sorted_order_statistic(f: Seq<u64>, t: Seq<u64>, k: nat)
    requires
        sorted_by(t, sample_leq()),
        t.to_multiset() == f.to_multiset(),
        k < t.len(),
    ensures
        order_statistic(f, t[k as int], k),
{
    let v = t[k as int];
    assert(t.to_multiset().count(v) > 0);
    assert(f.contains(v));
    let lo = t.take(k + 1int);
    let hi = t.skip(k + 1int);
    assert(t =~= lo + hi);
    Seq::filter_distributes_over_add(lo, hi, at_most(v));
    assert forall|i: int| 0 <= i < lo.len() implies at_most(v)(#[trigger] lo[i]) by {
        if i < k {
            assert(sample_leq()(t[i], t[k as int]));
        }
    }
    lemma_filter_all(lo, at_most(v));
    lemma_filter_len_permutation(t, f, at_most(v));
    let lo2 = t.take(k as int);
    let hi2 = t.skip(k as int);
    assert(t =~= lo2 + hi2);
    Seq::filter_distributes_over_add(lo2, hi2, below(v));
    assert forall|i: int| 0 <= i < hi2.len() implies !below(v)(#[trigger] hi2[i]) by {
        if i > 0 {
            assert(sample_leq()(t[k as int], t[k + i]));
        }
    }
    lemma_filter_none(hi2, below(v));
    lemma_filter_shorter(lo2, below(v));
    lemma_filter_len_permutation(t, f, below(v));
}

/// The latency statistics of a buffer are the mean and the order statistics
/// of its positive samples (see `latency_statistics`).
pub proof fn lemma_percentiles_are_order_statistics(s: Seq<u64>)
    ensures
        latency_statistics(s, percentiles_of(s)),
{
    let f = positive_samples(s);
    assert(f == s.filter(|x: u64| x > 0));
    let n = f.len();
    if n > 0 {
        let t = ascending(f);
        lemma_leq_total();
        f.lemma_sort_by_ensures(sample_leq());
        assert(t.to_multiset().len() == t.len());
        assert(f.to_multiset().len() == f.len());
        assert(t.len() == n);
        assert(n * 50 / 100 < n && n * 95 / 100 < n && n * 99 / 100 < n);
        lemma_sorted_order_statistic(f, t, n * 50 / 100);
        lemma_sorted_order_statistic(f, t, n * 95 / 100);
        lemma_sorted_order_statistic(f, t, n * 99 / 100);
        assert(n * 50 / 100 <= n * 95 / 100 <= n * 99 / 100);
        if n * 50 / 100 < n * 95 / 100 {
            assert(sample_leq()(t[(n * 50 / 100) as int], t[(n * 95 / 100) as int]));
        }
        if n * 95 / 100 < n * 99 / 100 {
            assert(sample_leq()(t[(n * 95 / 100) as int], t[(n * 99 / 100) as int]));
        }
        let a = sample_sum(f) / n;
        lemma_sum_bound(f);
        assert(a <= u64::MAX) by (nonlinear_arith)
            requires
                n > 0,
                a == sample_sum(f) / n,
                sample_sum(f) <= n * u64::MAX,
        ;
        assert(a * n <= sample_sum(f) < (a + 1) * n) by (nonlinear_arith)
            requires
                n > 0,
                a == sample_sum(f) / n,
        ;
        assert(percentiles_of(s).0 == a);
    }
}

} // verus!

//! The latency histogram, modelled in integer nanoseconds.
//!
//! One histogram instance exists per process; every completed request adds
//! exactly one observation. A histogram holds a fixed, ordered list of upper
//! bucket bounds, one counter per bucket plus a final counter for durations
//! above every bound, the total observation count, and the sum of all
//! observed durations. The bounds never change after creation, and the total
//! count always equals the sum of the bucket counters: no observation is
//! lost and none is counted twice.

use vstd::prelude::*;

verus! {

/// Sum of a sequence of counters.
pub open spec fn seq_sum(s: Seq<int>) -> int
    decreases s.len(),
{
    if s.len() == 0 {
        0
    } else {
        seq_sum(s.drop_last()) + s.last()
    }
}

/// The fixed upper bucket bounds of the request-duration histogram, in
/// nanoseconds: 0.080 s, 0.085 s, 0.090 s, 0.095 s, 0.100 s, 0.110 s,
/// 0.120 s, 0.150 s, 0.200 s, 0.300 s, 0.500 s and 1 s.
pub open spec fn spec_bucket_bounds() -> Seq<u64> {
    seq![
        80_000_000u64,
        85_000_000u64,
        90_000_000u64,
        95_000_000u64,
        100_000_000u64,
        110_000_000u64,
        120_000_000u64,
        150_000_000u64,
        200_000_000u64,
        300_000_000u64,
        500_000_000u64,
        1_000_000_000u64,
    ]
}

/// The fixed bucket bounds are strictly increasing.
pub proof fn lemma_bucket_bounds_sorted()
    ensures
        forall|i: int|
            0 <= i && i + 1 < spec_bucket_bounds().len() ==> #[trigger] spec_bucket_bounds()[i]
                < spec_bucket_bounds()[i + 1],
{
    let s = spec_bucket_bounds();
    assert(s.len() == 12);
    assert(s[0] == 80_000_000u64);
    assert(s[1] == 85_000_000u64);
    assert(s[2] == 90_000_000u64);
    assert(s[3] == 95_000_000u64);
    assert(s[4] == 100_000_000u64);
    assert(s[5] == 110_000_000u64);
    assert(s[6] == 120_000_000u64);
    assert(s[7] == 150_000_000u64);
    assert(s[8] == 200_000_000u64);
    assert(s[9] == 300_000_000u64);
    assert(s[10] == 500_000_000u64);
    assert(s[11] == 1_000_000_000u64);
    assert forall|i: int|
        0 <= i && i + 1 < spec_bucket_bounds().len() implies #[trigger] spec_bucket_bounds()[i]
            < spec_bucket_bounds()[i + 1] by {
        assert(0 <= i < 11);
    }
}

/// Index of the bucket a duration falls into: the first bound the duration
/// does not exceed, or one past the last bound (the overflow bucket) when it
/// exceeds them all.
pub open spec fn bucket_index(bounds: Seq<u64>, d: u64) -> int
    decreases bounds.len(),
{
    if bounds.len() == 0 {
        0
    } else if d <= bounds[0] {
        0
    } else {
        1 + bucket_index(bounds.drop_first(), d)
    }
}

/// A bucket index is within range, every earlier bound is exceeded, and the
/// bound at the index (when there is one) is not.
pub proof fn lemma_bucket_index(bounds: Seq<u64>, d: u64)
    ensures
        0 <= bucket_index(bounds, d) <= bounds.len(),
        forall|j: int| 0 <= j < bucket_index(bounds, d) ==> d > bounds[j],
        bucket_index(bounds, d) < bounds.len() ==> d <= bounds[bucket_index(bounds, d)],
    decreases bounds.len(),
{
    if bounds.len() > 0 && d > bounds[0] {
        lemma_bucket_index(bounds.drop_first(), d);
        assert forall|j: int| 0 <= j < bucket_index(bounds, d) implies d > bounds[j] by {
            if j > 0 {
                assert(bounds.drop_first()[j - 1] == bounds[j]);
            }
        }
        if bucket_index(bounds, d) < bounds.len() {
            assert(bounds.drop_first()[bucket_index(bounds.drop_first(), d)]
                == bounds[bucket_index(bounds, d)]);
        }
    }
}

/// An index with those three properties is the bucket index: the bucket of a
/// duration is unique.
pub proof fn lemma_bucket_index_agrees(bounds: Seq<u64>, d: u64, i: int)
    requires
        0 <= i <= bounds.len(),
        forall|j: int| 0 <= j < i ==> d > bounds[j],
        i < bounds.len() ==> d <= bounds[i],
    ensures
        bucket_index(bounds, d) == i,
    decreases bounds.len(),
{
    if bounds.len() > 0 && d > bounds[0] {
        assert(i != 0);
        assert(forall|j: int|
            0 <= j < bounds.drop_first().len() ==> bounds.drop_first()[j] == bounds[j + 1]);
        lemma_bucket_index_agrees(bounds.drop_first(), d, i - 1);
    }
}

/// Counters after one observation lands in bucket `i`.
pub open spec fn inc_at(counts: Seq<int>, i: int) -> Seq<int> {
    counts.update(i, counts[i] + 1)
}

/// Replacing one counter changes the sum by the difference.
pub proof fn lemma_seq_sum_update(s: Seq<int>, i: int, v: int)
    requires
        0 <= i < s.len(),
    ensures
        seq_sum(s.update(i, v)) == seq_sum(s) - s[i] + v,
    decreases s.len(),
{
    if i == s.len() - 1 {
        assert(s.update(i, v).drop_last() =~= s.drop_last());
    } else {
        assert(s.update(i, v).drop_last() =~= s.drop_last().update(i, v));
        lemma_seq_sum_update(s.drop_last(), i, v);
    }
}

/// The sum of a prefix of non-negative counters never exceeds the whole sum.
pub proof fn lemma_seq_sum_take_le(s: Seq<int>, k: int)
    requires
        0 <= k <= s.len(),
        forall|j: int| 0 <= j < s.len() ==> s[j] >= 0,
    ensures
        seq_sum(s.take(k)) <= seq_sum(s),
        0 <= seq_sum(s.take(k)),
    decreases s.len(),
{
    if k == s.len() {
        assert(s.take(k) =~= s);
        lemma_seq_sum_nonneg(s);
    } else if s.len() > 0 {
        if k == s.len() - 1 {
            assert(s.take(k) =~= s.drop_last());
            lemma_seq_sum_take_le(s.drop_last(), k);
        } else {
            assert(s.drop_last().take(k) =~= s.take(k));
            lemma_seq_sum_take_le(s.drop_last(), k);
        }
    }
}

/// A sum of non-negative counters is non-negative.
pub proof fn lemma_seq_sum_nonneg(s: Seq<int>)
    requires
        forall|j: int| 0 <= j < s.len() ==> s[j] >= 0,
    ensures
        0 <= seq_sum(s),
    decreases s.len(),
{
    if s.len() > 0 {
        lemma_seq_sum_nonneg(s.drop_last());
    }
}

/// No counter of a non-negative sequence exceeds the sum of all of them.
pub proof fn lemma_elem_le_seq_sum(s: Seq<int>, i: int)
    requires
        0 <= i < s.len(),
        forall|j: int| 0 <= j < s.len() ==> s[j] >= 0,
    ensures
        s[i] <= seq_sum(s),
    decreases s.len(),
{
    if i == s.len() - 1 {
        lemma_seq_sum_nonneg(s.drop_last());
    } else {
        lemma_elem_le_seq_sum(s.drop_last(), i);
    }
}

/// Counters after a whole sequence of observations, oldest first.
pub open spec fn counts_after(bounds: Seq<u64>, counts: Seq<int>, ds: Seq<u64>) -> Seq<int>
    decreases ds.len(),
{
    if ds.len() == 0 {
        counts
    } else {
        counts_after(bounds, inc_at(counts, bucket_index(bounds, ds[0])), ds.drop_first())
    }
}

/// A sequence of observations adds exactly its length to the sum of the
/// counters: however the observations interleave, none is lost and none is
/// counted twice.
pub proof fn lemma_observations_counted(bounds: Seq<u64>, counts: Seq<int>, ds: Seq<u64>)
    requires
        counts.len() == bounds.len() + 1,
    ensures
        counts_after(bounds, counts, ds).len() == counts.len(),
        seq_sum(counts_after(bounds, counts, ds)) == seq_sum(counts) + ds.len(),
    decreases ds.len(),
{
    if ds.len() > 0 {
        let i = bucket_index(bounds, ds[0]);
        lemma_bucket_index(bounds, ds[0]);
        lemma_seq_sum_update(counts, i, counts[i] + 1);
        lemma_observations_counted(bounds, inc_at(counts, i), ds.drop_first());
    }
}

/// Name under which the request-duration histogram appears in the
/// exposition output.
pub fn metric_name() -> (r: &'static str)
    ensures
        r@ == "http_request_duration_seconds"@,
{
    "http_request_duration_seconds"
}

/// Help text of the request-duration histogram in the exposition output.
pub fn metric_help() -> (r: &'static str)
    ensures
        r@ == "HTTP request duration in seconds"@,
{
    "HTTP request duration in seconds"
}

/// The process-wide request-duration histogram, in integer nanoseconds.
pub struct LatencyHistogram {
    bounds: Vec<u64>,
    counts: Vec<u64>,
    total: u64,
    sum: u128,
}

impl LatencyHistogram {
    /// Upper bucket bounds, in nanoseconds.
    pub closed spec fn bounds_spec(&self) -> Seq<u64> {
        self.bounds@
    }

    /// Observation counts per bucket; the final entry is the overflow bucket.
    pub closed spec fn counts_spec(&self) -> Seq<int> {
        self.counts@.map_values(|c: u64| c as int)
    }

    /// Total number of observations recorded.
    pub closed spec fn total_spec(&self) -> int {
        self.total as int
    }

    /// Sum of all observed durations, in nanoseconds.
    pub closed spec fn sum_spec(&self) -> int {
        self.sum as int
    }

    /// Observations in buckets up to and including bucket `i`.
    pub open spec fn cumulative_spec(&self, i: int) -> int {
        seq_sum(self.counts_spec().take(i + 1))
    }

    /// Well-formed: strictly increasing bounds, one counter per bucket plus
    /// the overflow counter, a total equal to the sum of the counters, and a
    /// duration sum no greater than the largest each observation could add.
    pub open spec fn wf(&self) -> bool {
        &&& self.counts_spec().len() == self.bounds_spec().len() + 1
        &&& forall|i: int|
            0 <= i && i + 1 < self.bounds_spec().len() ==> #[trigger] self.bounds_spec()[i]
                < self.bounds_spec()[i + 1]
        &&& seq_sum(self.counts_spec()) == self.total_spec()
        &&& self.sum_spec() <= self.total_spec() * (u64::MAX as int)
    }

    /// Create the histogram: the fixed bucket bounds, and no observations.
    pub fn new() -> (r: LatencyHistogram)
        ensures
            r.wf(),
            r.bounds_spec() == spec_bucket_bounds(),
            r.total_spec() == 0,
            r.sum_spec() == 0,
            forall|i: int| 0 <= i < r.counts_spec().len() ==> r.counts_spec()[i] == 0,
    {
        let mut bounds: Vec<u64> = Vec::new();
        bounds.push(80_000_000);
        bounds.push(85_000_000);
        bounds.push(90_000_000);
        bounds.push(95_000_000);
        bounds.push(100_000_000);
        bounds.push(110_000_000);
        bounds.push(120_000_000);
        bounds.push(150_000_000);
        bounds.push(200_000_000);
        bounds.push(300_000_000);
        bounds.push(500_000_000);
        bounds.push(1_000_000_000);
        proof {
            assert(bounds@ =~= spec_bucket_bounds());
            lemma_bucket_bounds_sorted();
        }
        let mut counts: Vec<u64> = Vec::new();
        let mut j: usize = 0;
        while j < 13
            invariant
                j <= 13,
                counts@.len() == j,
                forall|t: int| 0 <= t < j ==> counts@[t] == 0,
            decreases 13 - j,
        {
            counts.push(0);
            j = j + 1;
        }
        let r = LatencyHistogram { bounds, counts, total: 0, sum: 0 };
        proof {
            assert(forall|i: int|
                0 <= i < r.counts_spec().len() ==> r.counts_spec()[i] == 0);
            lemma_all_zero_seq_sum(r.counts_spec());
        }
        r
    }

    /// Record one observation of `d` nanoseconds.
    ///
    /// Exactly one counter grows, by one: the counter of the bucket the
    /// duration falls into. The bounds do not change, the total grows by one,
    /// and the duration sum grows by `d`.
    pub fn observe(&mut self, d: u64)
        requires
            old(self).wf(),
            old(self).total_spec() < u64::MAX,
        ensures
            final(self).wf(),
            final(self).bounds_spec() == old(self).bounds_spec(),
            final(self).total_spec() == old(self).total_spec() + 1,
            final(self).sum_spec() == old(self).sum_spec() + d,
            final(self).counts_spec() == inc_at(
                old(self).counts_spec(),
                bucket_index(old(self).bounds_spec(), d),
            ),
    {
        let mut idx: usize = 0;
        while idx < self.bounds.len() && d > self.bounds[idx]
            invariant
                idx <= self.bounds@.len(),
                forall|j: int| 0 <= j < idx ==> d > self.bounds@[j],
            decreases self.bounds@.len() - idx,
        {
            idx = idx + 1;
        }
        proof {
            lemma_bucket_index_agrees(self.bounds@, d, idx as int);
            lemma_elem_le_seq_sum(self.counts_spec(), idx as int);
        }
        let c = self.counts[idx];
        self.counts.set(idx, c + 1);
        proof {
            let ghost m: int = u64::MAX as int;
            assert(old(self).sum as int + d as int <= (old(self).total as int + 1) * m);
            assert((old(self).total as int + 1) * m <= m * m);
        }
        self.total = self.total + 1;
        self.sum = self.sum + (d as u128);
        proof {
            assert(self.counts_spec() =~= inc_at(
                old(self).counts_spec(),
                bucket_index(old(self).bounds_spec(), d),
            ));
            lemma_seq_sum_update(old(self).counts_spec(), idx as int, old(self).counts_spec()[idx as int] + 1);
        }
    }

    /// Observations in buckets up to and including bucket `i`.
    pub fn cumulative_count(&self, i: usize) -> (r: u64)
        requires
            self.wf(),
            i < self.counts_spec().len(),
            self.total_spec() <= u64::MAX,
        ensures
            r as int == self.cumulative_spec(i as int),
    {
        let ghost cs: Seq<int> = self.counts_spec();
        let mut acc: u64 = 0;
        let mut j: usize = 0;
        while j < i
            invariant
                self.wf(),
                i < cs.len(),
                cs == self.counts_spec(),
                self.total_spec() <= u64::MAX,
                j <= i,
                acc as int == seq_sum(cs.take(j as int)),
            decreases i - j,
        {
            proof {
                assert(cs.take(j as int + 1).drop_last() =~= cs.take(j as int));
                lemma_seq_sum_take_le(cs, j as int + 1);
            }
            acc = acc + self.counts[j];
            j = j + 1;
        }
        proof {
            assert(cs.take(i as int + 1).drop_last() =~= cs.take(i as int));
            lemma_seq_sum_take_le(cs, i as int + 1);
        }
        acc = acc + self.counts[i];
        acc
    }

    /// Total number of observations recorded so far.
    pub fn total_count(&self) -> (r: u64)
        ensures
            r as int == self.total_spec(),
    {
        self.total
    }

    /// Sum of all observed durations, in nanoseconds.
    pub fn sum_nanos(&self) -> (r: u128)
        ensures
            r as int == self.sum_spec(),
    {
        self.sum
    }

    /// Number of counters: one per bound, plus the overflow bucket.
    pub fn num_counters(&self) -> (r: usize)
        ensures
            r as int == self.counts_spec().len(),
    {
        self.counts.len()
    }

    /// The upper bound of bucket `i`, in nanoseconds.
    pub fn bucket_bound(&self, i: usize) -> (r: u64)
        requires
            i < self.bounds_spec().len(),
        ensures
            r == self.bounds_spec()[i as int],
    {
        self.bounds[i]
    }

    /// Number of bounds, excluding the overflow bucket.
    pub fn num_bounds(&self) -> (r: usize)
        ensures
            r as int == self.bounds_spec().len(),
    {
        self.bounds.len()
    }

    /// The counter of bucket `i`.
    pub fn bucket_count(&self, i: usize) -> (r: u64)
        requires
            i < self.counts_spec().len(),
        ensures
            r as int == self.counts_spec()[i as int],
    {
        self.counts[i]
    }

    /// Cumulative counts grow with the bucket index: a histogram's buckets
    /// are cumulative in the exposition, so later buckets never show less.
    pub proof fn lemma_cumulative_monotone(&self, i: int, j: int)
        requires
            self.wf(),
            0 <= i <= j < self.counts_spec().len(),
        ensures
            self.cumulative_spec(i) <= self.cumulative_spec(j),
    {
        lemma_take_seq_sum_monotone(self.counts_spec(), i + 1, j + 1);
    }

    /// One observation never lowers any cumulative bucket count: as requests
    /// complete, every cumulative count grows monotonically.
    pub proof fn lemma_observe_cumulative_monotone(pre: LatencyHistogram, post: LatencyHistogram, d: u64, i: int)
        requires
            pre.wf(),
            0 <= i < pre.counts_spec().len(),
            post.counts_spec() == inc_at(pre.counts_spec(), bucket_index(pre.bounds_spec(), d)),
        ensures
            pre.cumulative_spec(i) <= post.cumulative_spec(i),
    {
        let cs = pre.counts_spec();
        let b = bucket_index(pre.bounds_spec(), d);
        lemma_bucket_index(pre.bounds_spec(), d);
        if b <= i {
            assert(post.counts_spec().take(i + 1) =~= cs.take(i + 1).update(b, cs[b] + 1));
            lemma_seq_sum_update(cs.take(i + 1), b, cs[b] + 1);
        } else {
            assert(post.counts_spec().take(i + 1) =~= cs.take(i + 1));
        }
    }
}

/// A sequence of zero counters sums to zero.
pub proof fn lemma_all_zero_seq_sum(s: Seq<int>)
    requires
        forall|j: int| 0 <= j < s.len() ==> s[j] == 0,
    ensures
        seq_sum(s) == 0,
    decreases s.len(),
{
    if s.len() > 0 {
        lemma_all_zero_seq_sum(s.drop_last());
    }
}

/// Longer prefixes of non-negative counters have no smaller sums.
pub proof fn lemma_take_seq_sum_monotone(s: Seq<int>, k1: int, k2: int)
    requires
        0 <= k1 <= k2 <= s.len(),
        forall|j: int| 0 <= j < s.len() ==> s[j] >= 0,
    ensures
        seq_sum(s.take(k1)) <= seq_sum(s.take(k2)),
    decreases k2 - k1,
{
    if k1 < k2 {
        assert(s.take(k1 + 1).drop_last() =~= s.take(k1));
        assert(s.take(k1 + 1).last() == s[k1]);
        lemma_take_seq_sum_monotone(s, k1 + 1, k2);
    }
}

} // verus!

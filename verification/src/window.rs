//! One time slice of a heatmap: a histogram with a generation tag.

use vstd::prelude::*;
use crate::bucket::BucketScheme;
use crate::error::HeatmapError;
use crate::instant::saturating_sum;
use crate::rank::{
    find_percentile_bucket, lemma_prefix_sum_bound, percentile_bucket, plain_counts, total_of,
    wide_counts, Percentile,
};

verus! {

/// What a window holds: the rotation cycle that owns it and one count per
/// bucket.
pub struct WindowModel {
    pub generation: u64,
    pub counts: Seq<u64>,
}

/// `n` counts of zero.
pub open spec fn zeros(n: nat) -> Seq<u64> {
    Seq::new(n, |i: int| 0u64)
}

/// The value at percentile `p` of a histogram with these counts: the lower
/// bound of the bucket that holds the rank.
pub open spec fn percentile_value(scheme: BucketScheme, counts: Seq<nat>, p: Percentile) -> Result<
    u64,
    HeatmapError,
> {
    match percentile_bucket(counts, p) {
        None => Err(HeatmapError::Empty),
        Some(b) => Ok(scheme.value_of(b as nat) as u64),
    }
}

/// The value at percentile `p` of a histogram with these counts.
pub fn percentile_of(scheme: &BucketScheme, counts: &Vec<u128>, p: Percentile) -> (r: Result<
    u64,
    HeatmapError,
>)
    requires
        counts.len() == scheme.bucket_count(),
        total_of(wide_counts(counts@)) <= u128::MAX,
    ensures
        r == percentile_value(*scheme, wide_counts(counts@), p),
        r is Err <==> total_of(wide_counts(counts@)) == 0,
{
    match find_percentile_bucket(counts, p) {
        None => Err(HeatmapError::Empty),
        Some(b) => Ok(scheme.bucket_value(b)),
    }
}

/// A histogram for one time slice.
pub struct Window {
    scheme: BucketScheme,
    counts: Vec<u64>,
    generation: u64,
}

impl View for Window {
    type V = WindowModel;

    closed spec fn view(&self) -> WindowModel {
        WindowModel { generation: self.generation, counts: self.counts@ }
    }
}

impl Window {
    /// Whether the window has one count for each bucket of its scheme.
    pub closed spec fn wf(self) -> bool {
        self.counts.len() == self.scheme.bucket_count()
    }

    /// The bucket scheme of this window.
    pub closed spec fn scheme(self) -> BucketScheme {
        self.scheme
    }

    /// An empty window owned by `generation`.
    pub fn new(scheme: BucketScheme, generation: u64) -> (w: Window)
        ensures
            w.wf(),
            w.scheme() == scheme,
            w@.generation == generation,
            w@.counts == zeros(scheme.bucket_count()),
    {
        let n = scheme.buckets();
        let mut counts: Vec<u64> = Vec::new();
        let mut i: usize = 0;
        while i < n
            invariant
                i <= n,
                counts.len() == i,
                forall|j: int| 0 <= j < i ==> counts[j] == 0,
            decreases n - i,
        {
            counts.push(0u64);
            i = i + 1;
        }
        assert(counts@ =~= zeros(n as nat));
        Window { scheme, counts, generation }
    }

    /// The number of buckets.
    pub fn buckets(&self) -> (n: usize)
        requires
            self.wf(),
        ensures
            n == self@.counts.len(),
            n == self.scheme().bucket_count(),
    {
        self.counts.len()
    }

    /// The rotation cycle that owns this window.
    pub fn generation(&self) -> (g: u64)
        ensures
            g == self@.generation,
    {
        self.generation
    }

    /// Hands the window to another rotation cycle; the counts stay.
    pub fn set_generation(&mut self, generation: u64)
        requires
            old(self).wf(),
        ensures
            final(self).wf(),
            final(self).scheme() == old(self).scheme(),
            final(self)@.generation == generation,
            final(self)@.counts == old(self)@.counts,
    {
        self.generation = generation;
    }

    /// The count of bucket `bucket_index`.
    pub fn count_at(&self, bucket_index: usize) -> (c: u64)
        requires
            bucket_index < self@.counts.len(),
        ensures
            c == self@.counts[bucket_index as int],
    {
        self.counts[bucket_index]
    }

    /// Adds `count` to bucket `bucket_index`; a count stops at the largest
    /// 64-bit value.
    pub fn insert(&mut self, bucket_index: usize, count: u64)
        requires
            old(self).wf(),
            bucket_index < old(self)@.counts.len(),
        ensures
            final(self).wf(),
            final(self).scheme() == old(self).scheme(),
            final(self)@.generation == old(self)@.generation,
            final(self)@.counts == old(self)@.counts.update(
                bucket_index as int,
                saturating_sum(
                    old(self)@.counts[bucket_index as int] as nat,
                    count as nat,
                ) as u64,
            ),
    {
        let before = self.counts[bucket_index];
        let after = match before.checked_add(count) {
            Some(sum) => sum,
            None => u64::MAX,
        };
        self.counts.set(bucket_index, after);
    }

    /// Adds `count` samples of `value`.
    pub fn record(&mut self, value: u64, count: u64)
        requires
            old(self).wf(),
        ensures
            final(self).wf(),
            final(self).scheme() == old(self).scheme(),
            final(self)@.generation == old(self)@.generation,
            final(self)@.counts == old(self)@.counts.update(
                old(self).scheme().index_of(value) as int,
                saturating_sum(
                    old(self)@.counts[old(self).scheme().index_of(value) as int] as nat,
                    count as nat,
                ) as u64,
            ),
    {
        let b = self.scheme.bucket_index(value);
        self.insert(b, count);
    }

    /// Sets every count to zero; the generation stays.
    pub fn clear(&mut self)
        requires
            old(self).wf(),
        ensures
            final(self).wf(),
            final(self).scheme() == old(self).scheme(),
            final(self)@.generation == old(self)@.generation,
            final(self)@.counts == zeros(old(self)@.counts.len()),
    {
        let n = self.counts.len();
        let mut i: usize = 0;
        while i < n
            invariant
                i <= n,
                self.counts.len() == n,
                self.scheme == old(self).scheme,
                self.generation == old(self).generation,
                forall|j: int| 0 <= j < i ==> self.counts[j] == 0,
            decreases n - i,
        {
            self.counts.set(i, 0u64);
            i = i + 1;
        }
        assert(self.counts@ =~= zeros(n as nat));
    }

    /// The counts, widened.
    fn widened(&self) -> (wide: Vec<u128>)
        requires
            self.wf(),
        ensures
            wide_counts(wide@) == plain_counts(self@.counts),
            wide.len() == self@.counts.len(),
            total_of(wide_counts(wide@)) <= u128::MAX,
    {
        let n = self.counts.len();
        let mut wide: Vec<u128> = Vec::new();
        let mut i: usize = 0;
        while i < n
            invariant
                i <= n,
                n == self.counts.len(),
                wide.len() == i,
                forall|j: int| 0 <= j < i ==> wide[j] == self.counts[j],
            decreases n - i,
        {
            wide.push(self.counts[i] as u128);
            i = i + 1;
        }
        proof {
            assert(wide_counts(wide@) =~= plain_counts(self@.counts));
            lemma_prefix_sum_bound(wide_counts(wide@), n as nat, u64::MAX as nat);
            assert(n * u64::MAX <= u128::MAX) by (nonlinear_arith)
                requires
                    n <= u64::MAX,
            ;
        }
        wide
    }

    /// The number of samples in this window.
    pub fn total(&self) -> (total: u128)
        requires
            self.wf(),
        ensures
            total == total_of(plain_counts(self@.counts)),
    {
        let wide = self.widened();
        crate::rank::sum_counts(&wide)
    }

    /// The value at percentile `p` among the samples of this window alone.
    pub fn percentile_within(&self, p: Percentile) -> (r: Result<u64, HeatmapError>)
        requires
            self.wf(),
        ensures
            r == percentile_value(self.scheme(), plain_counts(self@.counts), p),
            r is Err <==> total_of(plain_counts(self@.counts)) == 0,
    {
        let wide = self.widened();
        percentile_of(&self.scheme, &wide, p)
    }
}

} // verus!

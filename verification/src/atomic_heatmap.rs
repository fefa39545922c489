//! The heatmap for many writers: every counter and every generation tag is
//! an atomic cell, and a slot changes hands by one compare-and-swap on its
//! generation tag.
//!
//! A writer that finds its slot owned by another generation swaps the tag;
//! the one writer whose swap succeeds clears the counters. A sample that
//! lands between another writer's swap and clear is lost. A query reads the
//! cells one by one and so answers for some snapshot of them.

use vstd::prelude::*;
use core::sync::atomic::AtomicU64;
use crate::atomics::{exchange_u64, fetch_adjust_u64, load_u64, store_u64};
use crate::bucket::BucketScheme;
use crate::error::HeatmapError;
use crate::heatmap::{generation_from, generation_of, landing, Heatmap};
use crate::instant::{Duration, Instant};
use crate::rank::Percentile;
use crate::ring::{merged_ring, percentile_of_ring, ring_rows};
use crate::window::percentile_value;

verus! {

/// How often a writer tries to take over a slot before it drops its sample.
pub const TAKEOVER_ATTEMPTS: u32 = 64;

/// One time slice's histogram, in atomic cells.
pub struct AtomicWindow {
    counts: Vec<AtomicU64>,
    generation: AtomicU64,
}

impl AtomicWindow {
    /// The number of buckets.
    pub closed spec fn buckets(self) -> nat {
        self.counts.len() as nat
    }

    /// An empty window of `buckets` buckets, owned by `generation`.
    pub fn new(buckets: usize, generation: u64) -> (w: AtomicWindow)
        ensures
            w.buckets() == buckets,
    {
        let mut counts: Vec<AtomicU64> = Vec::new();
        let mut i: usize = 0;
        while i < buckets
            invariant
                i <= buckets,
                counts.len() == i,
            decreases buckets - i,
        {
            counts.push(AtomicU64::new(0));
            i = i + 1;
        }
        AtomicWindow { counts, generation: AtomicU64::new(generation) }
    }

    /// The rotation cycle that owns this window, as last stored.
    pub fn generation(&self) -> u64 {
        load_u64(&self.generation)
    }

    /// Hands the window from `current` to `generation`, if `current` owns
    /// it; returns what the tag held, as `Ok` if the window changed hands.
    pub fn take_over(&self, current: u64, generation: u64) -> Result<u64, u64> {
        exchange_u64(&self.generation, current, generation)
    }

    /// Adds `count` to bucket `bucket_index`; a count stops at the largest
    /// 64-bit value.
    pub fn insert(&self, bucket_index: usize, count: u64)
        requires
            bucket_index < self.buckets(),
    {
        fetch_adjust_u64(&self.counts[bucket_index], true, count);
    }

    /// The count of bucket `bucket_index`, as last stored.
    pub fn count_at(&self, bucket_index: usize) -> u64
        requires
            bucket_index < self.buckets(),
    {
        load_u64(&self.counts[bucket_index])
    }

    /// Sets every count to zero; the generation stays.
    pub fn clear(&self) {
        let n = self.counts.len();
        let mut i: usize = 0;
        while i < n
            invariant
                i <= n,
                n == self.counts.len(),
            decreases n - i,
        {
            store_u64(&self.counts[i], 0);
            i = i + 1;
        }
    }

    /// The counts of all buckets, each as last stored.
    pub fn counts(&self) -> (row: Vec<u64>)
        ensures
            row.len() == self.buckets(),
    {
        let n = self.counts.len();
        let mut row: Vec<u64> = Vec::new();
        let mut b: usize = 0;
        while b < n
            invariant
                b <= n,
                n == self.counts.len(),
                row.len() == b,
            decreases n - b,
        {
            row.push(load_u64(&self.counts[b]));
            b = b + 1;
        }
        row
    }
}

/// A sliding-window histogram that many threads can write to and read from
/// without a lock.
pub struct AtomicHeatmap {
    scheme: BucketScheme,
    created: Instant,
    span: Duration,
    resolution: Duration,
    slots: Vec<AtomicWindow>,
}

impl AtomicHeatmap {
    #[verifier::type_invariant]
    spec fn inv(self) -> bool {
        &&& self.resolution.nanos > 0
        &&& self.slots.len() > 0
        &&& self.slots.len() * self.scheme.bucket_count() <= usize::MAX
        &&& forall|i: int|
            0 <= i < self.slots.len() ==> (#[trigger] self.slots[i]).buckets()
                == self.scheme.bucket_count()
    }

    /// The bucket scheme.
    pub closed spec fn scheme(self) -> BucketScheme {
        self.scheme
    }

    /// The time of creation.
    pub closed spec fn created(self) -> Instant {
        self.created
    }

    /// The time that the ring spans.
    pub closed spec fn span(self) -> Duration {
        self.span
    }

    /// The time that one slot covers.
    pub closed spec fn resolution(self) -> Duration {
        self.resolution
    }

    /// The number of slots in the ring.
    pub closed spec fn ring(self) -> nat {
        self.slots.len() as nat
    }

    /// Creates a heatmap for values up to `max_value` with `precision`
    /// significant digits, which keeps the last `span` of time in slots of
    /// `resolution` each and counts time from `created`.
    pub fn new(
        max_value: u64,
        precision: u8,
        span: Duration,
        resolution: Duration,
        created: Instant,
    ) -> (h: AtomicHeatmap)
        requires
            Heatmap::divides(span, resolution),
            Heatmap::addressable(max_value, precision, span, resolution),
        ensures
            h.scheme().max_value() == max_value,
            h.scheme().precision() == precision,
            h.created() == created,
            h.span() == span,
            h.resolution() == resolution,
            h.ring() == span.nanos / resolution.nanos,
    {
        let scheme = BucketScheme::new(max_value, precision);
        let buckets = scheme.buckets();
        let ring: u64 = span.nanos / resolution.nanos;
        proof {
            let c = BucketScheme::count_for(max_value, precision);
            assert(ring <= c * ring) by (nonlinear_arith)
                requires
                    c >= 1,
            ;
            vstd::arithmetic::div_mod::lemma_fundamental_div_mod(
                span.nanos as int,
                resolution.nanos as int,
            );
            assert(ring > 0) by (nonlinear_arith)
                requires
                    span.nanos == resolution.nanos * ring + 0,
                    span.nanos > 0,
            ;
            assert(c * ring == ring as nat * c) by (nonlinear_arith);
        }
        let n: usize = ring as usize;
        let mut slots: Vec<AtomicWindow> = Vec::new();
        let mut i: usize = 0;
        while i < n
            invariant
                i <= n,
                slots.len() == i,
                buckets == scheme.bucket_count(),
                forall|j: int| 0 <= j < i ==> (#[trigger] slots[j]).buckets() == buckets,
            decreases n - i,
        {
            slots.push(AtomicWindow::new(buckets, i as u64));
            i = i + 1;
        }
        AtomicHeatmap { scheme, created, span, resolution, slots }
    }

    /// Records `count` samples of `value` at `time`. A time before the
    /// creation records nothing, and so does a writer that lost its slot to
    /// others `TAKEOVER_ATTEMPTS` times in a row.
    pub fn increment(&self, time: Instant, value: u64, count: u64) {
        proof {
            use_type_invariant(self);
        }
        let at = match landing(
            &self.scheme,
            self.created,
            self.resolution,
            self.slots.len(),
            time,
            value,
        ) {
            Some(at) => at,
            None => {
                return ;
            },
        };
        let window = &self.slots[at.slot];
        let mut attempts: u32 = 0;
        while attempts < TAKEOVER_ATTEMPTS
            invariant
                at.bucket < window.buckets(),
            decreases TAKEOVER_ATTEMPTS - attempts,
        {
            let stored = window.generation();
            if stored == at.generation {
                window.insert(at.bucket, count);
                return ;
            }
            match window.take_over(stored, at.generation) {
                Ok(_) => {
                    window.clear();
                    window.insert(at.bucket, count);
                    return ;
                },
                Err(_) => {
                    attempts = attempts + 1;
                },
            }
        }
    }

    /// Whether `tags` and `rows` have the shape of this ring: one tag and
    /// one row for each slot, and one count for each bucket in every row.
    pub open spec fn is_snapshot(self, tags: Seq<u64>, rows: Seq<Seq<u64>>) -> bool {
        &&& tags.len() == self.ring()
        &&& rows.len() == self.ring()
        &&& forall|i: int| 0 <= i < rows.len() ==> (#[trigger] rows[i]).len() == self.scheme().bucket_count()
    }

    /// The generation tags and the counts of all slots, each as last
    /// stored.
    pub fn snapshot(&self) -> (ring: (Vec<u64>, Vec<Vec<u64>>))
        ensures
            self.is_snapshot(ring.0@, ring_rows(ring.1@)),
    {
        proof {
            use_type_invariant(self);
        }
        let n = self.slots.len();
        let mut tags: Vec<u64> = Vec::new();
        let mut counts: Vec<Vec<u64>> = Vec::new();
        let mut i: usize = 0;
        while i < n
            invariant
                i <= n,
                n == self.slots.len(),
                tags.len() == i,
                counts.len() == i,
                forall|j: int|
                    0 <= j < n ==> (#[trigger] self.slots[j]).buckets()
                        == self.scheme.bucket_count(),
                forall|j: int|
                    0 <= j < i ==> (#[trigger] counts[j]).len() == self.scheme.bucket_count(),
            decreases n - i,
        {
            let window = &self.slots[i];
            tags.push(window.generation());
            counts.push(window.counts());
            i = i + 1;
        }
        proof {
            let rows = ring_rows(counts@);
            assert forall|j: int| 0 <= j < rows.len() implies (#[trigger] rows[j]).len()
                == self.scheme().bucket_count() by {
                assert(rows[j] == counts[j]@);
            }
        }
        (tags, counts)
    }

    /// The value at percentile `p` among the samples that a query at `now`
    /// sees: the percentile of the merge of the ring that this call read,
    /// which takes in every slot that counts at `now` once and no other.
    pub fn percentile(&self, now: Instant, p: Percentile) -> (r: Result<u64, HeatmapError>)
        ensures
            exists|tags: Seq<u64>, rows: Seq<Seq<u64>>|
                #[trigger] self.is_snapshot(tags, rows) && r == percentile_value(
                    self.scheme(),
                    merged_ring(
                        tags,
                        rows,
                        generation_from(self.created().nanos, self.resolution().nanos, now) as u64,
                    ),
                    p,
                ),
    {
        proof {
            use_type_invariant(self);
        }
        let current = generation_of(self.created, self.resolution, now);
        let (tags, counts) = self.snapshot();
        proof {
            let rows = ring_rows(counts@);
            assert forall|i: int| 0 <= i < counts.len() implies (#[trigger] counts[i]).len()
                == self.scheme.bucket_count() by {
                assert(rows[i] == counts[i]@);
            }
        }
        let r = percentile_of_ring(&self.scheme, &tags, &counts, current, p);
        assert(self.is_snapshot(tags@, ring_rows(counts@)));
        r
    }
}

} // verus!

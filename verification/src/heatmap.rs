//! The heatmap: a ring of windows over the most recent span of time.
//!
//! The ring has `span / resolution` slots. A sample recorded at time `t`
//! belongs to generation `(t - created) / resolution` and lives in slot
//! `generation % slots`. A slot is reset when a sample of another generation
//! arrives in it, and a query leaves out every slot whose generation lies a
//! whole ring or more behind the generation of the time of the query.

use vstd::prelude::*;
use crate::bucket::{lemma_index_in_range, BucketScheme};
use crate::error::HeatmapError;
use crate::instant::{saturating_sum, Duration, Instant};
use crate::rank::{lemma_prefix_sum_bound, total_of, wide_counts, Percentile};
use crate::ring::{lemma_model_is_ring, merged_ring};
use crate::window::{percentile_of, percentile_value, zeros, Window, WindowModel};

verus! {

/// The generation in which `time` falls for a ring created at `created`
/// with slots of `resolution` nanoseconds. Times before the creation count
/// as the creation.
pub open spec fn generation_from(created: u64, resolution: u64, time: Instant) -> nat {
    if time.nanos < created {
        0
    } else {
        ((time.nanos - created) / (resolution as int)) as nat
    }
}

/// Whether a slot owned by `generation` counts in a query made in
/// generation `current`: it does unless it lies a whole ring or more behind.
pub open spec fn counts_at(generation: u64, current: u64, ring: nat) -> bool {
    generation + ring > current
}

/// The generation in which `time` falls.
pub fn generation_of(created: Instant, resolution: Duration, time: Instant) -> (g: u64)
    requires
        resolution.nanos > 0,
    ensures
        g == generation_from(created.nanos, resolution.nanos, time),
{
    if time.nanos < created.nanos {
        0
    } else {
        (time.nanos - created.nanos) / resolution.nanos
    }
}

/// The slot of a ring of `ring` slots that holds `generation`.
pub fn slot_for(generation: u64, ring: usize) -> (slot: usize)
    requires
        ring > 0,
    ensures
        slot == generation as nat % ring as nat,
        slot < ring,
{
    (generation % (ring as u64)) as usize
}

/// Where a sample lands in a ring.
#[derive(Clone, Copy, Debug, PartialEq, Eq, Structural)]
pub struct Landing {
    /// The generation in which the time of the sample falls.
    pub generation: u64,
    /// The slot that holds that generation.
    pub slot: usize,
    /// The bucket of the value of the sample.
    pub bucket: usize,
}

/// Where a sample of `value` recorded at `time` lands in a ring of `ring`
/// slots of `resolution` each that was created at `created`: nowhere, where
/// `time` lies before the creation.
pub open spec fn landing_for(
    scheme: BucketScheme,
    created: Instant,
    resolution: Duration,
    ring: usize,
    time: Instant,
    value: u64,
) -> Option<Landing> {
    if time.nanos < created.nanos {
        None
    } else {
        let generation = generation_from(created.nanos, resolution.nanos, time);
        Some(
            Landing {
                generation: generation as u64,
                slot: (generation % (ring as nat)) as usize,
                bucket: scheme.index_of(value) as usize,
            },
        )
    }
}

/// Decides where a sample lands.
pub fn landing(
    scheme: &BucketScheme,
    created: Instant,
    resolution: Duration,
    ring: usize,
    time: Instant,
    value: u64,
) -> (l: Option<Landing>)
    requires
        resolution.nanos > 0,
        ring > 0,
    ensures
        l == landing_for(*scheme, created, resolution, ring, time, value),
        l is None <==> time.nanos < created.nanos,
        l matches Some(at) ==> {
            &&& at.generation == generation_from(created.nanos, resolution.nanos, time)
            &&& at.slot == at.generation as nat % ring as nat
            &&& at.slot < ring
            &&& at.bucket == scheme.index_of(value)
            &&& at.bucket < scheme.bucket_count()
        },
{
    if time.nanos < created.nanos {
        return None;
    }
    let generation = generation_of(created, resolution, time);
    let slot = slot_for(generation, ring);
    let bucket = scheme.bucket_index(value);
    Some(Landing { generation, slot, bucket })
}

/// Whether a slot owned by `generation` counts in a query made in
/// generation `current`.
pub fn is_live(generation: u64, current: u64, ring: usize) -> (live: bool)
    requires
        ring > 0,
    ensures
        live == counts_at(generation, current, ring as nat),
{
    if generation >= current {
        true
    } else {
        current - generation < ring as u64
    }
}

/// What a heatmap holds.
pub struct HeatmapModel {
    pub scheme: BucketScheme,
    /// The time of creation, in nanoseconds.
    pub created: u64,
    /// The time that the ring spans, in nanoseconds.
    pub span: u64,
    /// The time that one slot covers, in nanoseconds.
    pub resolution: u64,
    pub slots: Seq<WindowModel>,
}

impl HeatmapModel {
    /// The number of slots in the ring.
    pub open spec fn ring(self) -> nat {
        self.slots.len()
    }

    pub open spec fn wf(self) -> bool {
        &&& self.resolution > 0
        &&& self.ring() > 0
        &&& self.span == self.ring() * self.resolution
        &&& self.ring() * self.scheme.bucket_count() <= usize::MAX
        &&& forall|i: int|
            0 <= i < self.ring() ==> (#[trigger] self.slots[i]).counts.len()
                == self.scheme.bucket_count()
        &&& forall|i: int|
            0 <= i < self.ring() ==> (#[trigger] self.slots[i]).generation as int % (
            self.ring() as int) == i
    }

    /// The generation tags of the slots.
    pub open spec fn tags(self) -> Seq<u64> {
        Seq::new(self.ring(), |i: int| self.slots[i].generation)
    }

    /// The rows of counts of the slots.
    pub open spec fn rows(self) -> Seq<Seq<u64>> {
        Seq::new(self.ring(), |i: int| self.slots[i].counts)
    }

    /// The slots of a heatmap that has seen no sample: slot `i` is empty
    /// and owned by generation `i`.
    pub open spec fn fresh_slots(ring: nat, buckets: nat) -> Seq<WindowModel> {
        Seq::new(ring, |i: int| WindowModel { generation: i as u64, counts: zeros(buckets) })
    }

    /// Whether this heatmap has seen no sample since its creation.
    pub open spec fn is_fresh(self) -> bool {
        self.slots == Self::fresh_slots(self.ring(), self.scheme.bucket_count())
    }

    /// The generation in which `time` falls. Times before the creation
    /// count as the creation.
    pub open spec fn generation_at(self, time: Instant) -> nat {
        generation_from(self.created, self.resolution, time)
    }

    /// The slot that holds generation `generation`.
    pub open spec fn slot_of(self, generation: nat) -> int {
        (generation % self.ring()) as int
    }

    /// The window in which a sample of `value` with weight `count` lands:
    /// `window` itself if `generation` owns it, else an empty one.
    pub open spec fn landed(
        self,
        window: WindowModel,
        generation: nat,
        value: u64,
        count: u64,
    ) -> WindowModel {
        let base = if window.generation == generation {
            window.counts
        } else {
            zeros(self.scheme.bucket_count())
        };
        let b = self.scheme.index_of(value) as int;
        WindowModel {
            generation: generation as u64,
            counts: base.update(b, saturating_sum(base[b] as nat, count as nat) as u64),
        }
    }

    /// The heatmap after `count` samples of `value` were recorded at `time`.
    /// A time before the creation leaves the heatmap as it is.
    pub open spec fn increment(self, time: Instant, value: u64, count: u64) -> HeatmapModel {
        if time.nanos < self.created {
            self
        } else {
            let g = self.generation_at(time);
            let i = self.slot_of(g);
            HeatmapModel { slots: self.slots.update(i, self.landed(self.slots[i], g, value, count)), ..self }
        }
    }

    /// Whether slot `i` counts in a query made at `now`.
    pub open spec fn live(self, i: int, now: Instant) -> bool {
        counts_at(self.slots[i].generation, self.generation_at(now) as u64, self.ring())
    }

    /// The samples of bucket `b` in those of the first `n` slots that count
    /// at `now`.
    pub open spec fn merged_count(self, now: Instant, b: int, n: nat) -> nat
        decreases n,
    {
        if n == 0 {
            0
        } else {
            let i = n - 1;
            self.merged_count(now, b, i as nat) + if self.live(i, now) {
                self.slots[i].counts[b] as nat
            } else {
                0
            }
        }
    }

    /// The counts of all slots that count at `now`, added bucket by bucket.
    pub open spec fn merged(self, now: Instant) -> Seq<nat> {
        Seq::new(self.scheme.bucket_count(), |b: int| self.merged_count(now, b, self.ring()))
    }

    /// The answer to a query for percentile `p` made at `now`.
    pub open spec fn percentile(self, now: Instant, p: Percentile) -> Result<u64, HeatmapError> {
        percentile_value(self.scheme, self.merged(now), p)
    }
}

/// A merged count is at most as many full counters as slots went into it.
pub proof fn lemma_merged_count_bound(h: HeatmapModel, now: Instant, b: int, n: nat)
    ensures
        h.merged_count(now, b, n) <= n * u64::MAX,
    decreases n,
{
    if n > 0 {
        lemma_merged_count_bound(h, now, b, (n - 1) as nat);
        assert(n * u64::MAX == (n - 1) * u64::MAX + u64::MAX) by (nonlinear_arith);
    } else {
        assert(0 * u64::MAX == 0) by (nonlinear_arith);
    }
}

/// The merged counts of a heatmap add up to less than 128 bits hold.
pub proof fn lemma_merged_total_bound(h: HeatmapModel, now: Instant)
    requires
        h.wf(),
    ensures
        total_of(h.merged(now)) <= u128::MAX,
{
    let n = h.ring();
    let buckets = h.scheme.bucket_count();
    let cap = (n * u64::MAX) as nat;
    assert forall|b: int| 0 <= b < h.merged(now).len() implies h.merged(now)[b] <= cap by {
        lemma_merged_count_bound(h, now, b, n);
    }
    lemma_prefix_sum_bound(h.merged(now), buckets, cap);
    assert(buckets * (n * u64::MAX) <= u128::MAX) by (nonlinear_arith)
        requires
            n * buckets <= usize::MAX,
            usize::MAX <= u64::MAX,
    ;
}

/// A sliding-window histogram with a single owner.
pub struct Heatmap {
    scheme: BucketScheme,
    created: Instant,
    span: Duration,
    resolution: Duration,
    slots: Vec<Window>,
}

impl View for Heatmap {
    type V = HeatmapModel;

    closed spec fn view(&self) -> HeatmapModel {
        HeatmapModel {
            scheme: self.scheme,
            created: self.created.nanos,
            span: self.span.nanos,
            resolution: self.resolution.nanos,
            slots: Seq::new(self.slots.len() as nat, |i: int| self.slots[i]@),
        }
    }
}

impl Heatmap {
    /// Whether the heatmap's windows fit its parameters.
    pub closed spec fn wf(self) -> bool {
        &&& self@.wf()
        &&& forall|i: int|
            0 <= i < self.slots.len() ==> (#[trigger] self.slots[i]).wf() && self.slots[i].scheme()
                == self.scheme
    }

    /// Whether these parameters describe a heatmap that this machine can
    /// address: the bucket count, and the bucket count times the number of
    /// slots, each fit a `usize`.
    pub open spec fn addressable(max_value: u64, precision: u8, span: Duration, resolution: Duration) -> bool {
        &&& resolution.nanos > 0
        &&& BucketScheme::count_for(max_value, precision) * (span.nanos / resolution.nanos)
            <= usize::MAX
        &&& BucketScheme::count_for(max_value, precision) <= usize::MAX
    }

    /// Whether `span` is a positive multiple of `resolution`.
    pub open spec fn divides(span: Duration, resolution: Duration) -> bool {
        &&& resolution.nanos > 0
        &&& span.nanos > 0
        &&& span.nanos % resolution.nanos == 0
    }

    /// Whether a heatmap can be created with these parameters.
    pub fn accepts(max_value: u64, precision: u8, span: Duration, resolution: Duration) -> (ok:
        bool)
        ensures
            ok == (Self::divides(span, resolution) && Self::addressable(
                max_value,
                precision,
                span,
                resolution,
            )),
    {
        if resolution.nanos == 0 || span.nanos == 0 || span.nanos % resolution.nanos != 0 {
            return false;
        }
        if !BucketScheme::fits(max_value, precision) {
            return false;
        }
        let buckets = BucketScheme::new(max_value, precision).buckets();
        let ring: u64 = span.nanos / resolution.nanos;
        match (buckets as u64).checked_mul(ring) {
            Some(total) => total <= usize::MAX as u64,
            None => false,
        }
    }

    /// Creates a heatmap for values up to `max_value` with `precision`
    /// significant digits, which keeps the last `span` of time in slots of
    /// `resolution` each and counts time from `created`.
    pub fn new(
        max_value: u64,
        precision: u8,
        span: Duration,
        resolution: Duration,
        created: Instant,
    ) -> (h: Heatmap)
        requires
            Self::divides(span, resolution),
            Self::addressable(max_value, precision, span, resolution),
        ensures
            h.wf(),
            h@.scheme.max_value() == max_value,
            h@.scheme.precision() == precision,
            h@.created == created.nanos,
            h@.span == span.nanos,
            h@.resolution == resolution.nanos,
            h@.ring() == span.nanos / resolution.nanos,
            h@.is_fresh(),
    {
        let scheme = BucketScheme::new(max_value, precision);
        let ring: u64 = span.nanos / resolution.nanos;
        proof {
            let c = BucketScheme::count_for(max_value, precision);
            assert(ring <= c * ring) by (nonlinear_arith)
                requires
                    c >= 1,
            ;
            vstd::arithmetic::div_mod::lemma_fundamental_div_mod(
                span.nanos as int,
                resolution.nanos as int,
            );
            assert(ring > 0) by (nonlinear_arith)
                requires
                    span.nanos == resolution.nanos * ring + 0,
                    span.nanos > 0,
            ;
            assert(ring as nat * resolution.nanos as nat == resolution.nanos * ring)
                by (nonlinear_arith);
            assert(c * ring == ring as nat * c) by (nonlinear_arith);
        }
        let n: usize = ring as usize;
        let mut slots: Vec<Window> = Vec::new();
        let mut i: usize = 0;
        while i < n
            invariant
                i <= n,
                slots.len() == i,
                n > 0,
                forall|j: int|
                    0 <= j < i ==> (#[trigger] slots[j]).wf() && slots[j].scheme() == scheme
                        && slots[j]@.generation == j && slots[j]@.counts == zeros(
                        scheme.bucket_count(),
                    ),
            decreases n - i,
        {
            slots.push(Window::new(scheme, i as u64));
            i = i + 1;
        }
        let h = Heatmap { scheme, created, span, resolution, slots };
        proof {
            assert(h@.slots =~= HeatmapModel::fresh_slots(n as nat, scheme.bucket_count()));
            assert forall|j: int| 0 <= j < h@.ring() implies (#[trigger] h@.slots[j]).generation as int
                % (h@.ring() as int) == j by {
                vstd::arithmetic::div_mod::lemma_small_mod(j as nat, n as nat);
            }
        }
        h
    }

    /// Records `count` samples of `value` at `time`.
    pub fn increment(&mut self, time: Instant, value: u64, count: u64)
        requires
            old(self).wf(),
        ensures
            final(self).wf(),
            final(self)@ == old(self)@.increment(time, value, count),
    {
        let n = self.slots.len();
        let at = match landing(&self.scheme, self.created, self.resolution, n, time, value) {
            Some(at) => at,
            None => {
                return ;
            },
        };
        let slot = at.slot;
        let window = &mut self.slots[slot];
        if window.generation() != at.generation {
            window.clear();
            window.set_generation(at.generation);
        }
        window.record(value, count);
        proof {
            lemma_index_in_range(self.scheme, value);
            assert(self@.slots =~= old(self)@.increment(time, value, count).slots);
            assert forall|j: int| 0 <= j < n implies (#[trigger] self@.slots[j]).counts.len()
                == self.scheme.bucket_count() && self@.slots[j].generation as int % (n as int)
                == j by {
                if j != slot {
                    assert(self@.slots[j] == old(self)@.slots[j]);
                } else {
                    assert(old(self)@.slots[j].counts.len() == self.scheme.bucket_count());
                }
            }
        }
    }

    /// The number of slots in the ring.
    pub fn ring(&self) -> (n: usize)
        requires
            self.wf(),
        ensures
            n == self@.ring(),
    {
        self.slots.len()
    }

    /// Adds the counts of `window` to `merged`.
    fn add_window(window: &Window, merged: &mut Vec<u128>, Ghost(cap): Ghost<nat>)
        requires
            window.wf(),
            old(merged).len() == window@.counts.len(),
            cap + u64::MAX <= u128::MAX,
            forall|b: int| 0 <= b < old(merged).len() ==> old(merged)[b] <= cap,
        ensures
            final(merged).len() == old(merged).len(),
            forall|b: int|
                0 <= b < old(merged).len() ==> final(merged)[b] == old(merged)[b]
                    + window@.counts[b],
    {
        let n = merged.len();
        let mut b: usize = 0;
        while b < n
            invariant
                b <= n,
                window.wf(),
                merged.len() == n,
                n == window@.counts.len(),
                cap + u64::MAX <= u128::MAX,
                forall|j: int| 0 <= j < b ==> merged[j] == old(merged)[j] + window@.counts[j],
                forall|j: int| b <= j < n ==> merged[j] == old(merged)[j],
                forall|j: int| 0 <= j < n ==> old(merged)[j] <= cap,
            decreases n - b,
        {
            let sum: u128 = merged[b] + window.count_at(b) as u128;
            merged.set(b, sum);
            b = b + 1;
        }
    }

    /// The value at percentile `p` among the samples that a query at `now`
    /// still sees, or `Empty` where it sees none.
    pub fn percentile(&self, now: Instant, p: Percentile) -> (r: Result<u64, HeatmapError>)
        requires
            self.wf(),
        ensures
            r == self@.percentile(now, p),
            r == percentile_value(
                self@.scheme,
                merged_ring(self@.tags(), self@.rows(), self@.generation_at(now) as u64),
                p,
            ),
            r is Err <==> total_of(self@.merged(now)) == 0,
    {
        let current = generation_of(self.created, self.resolution, now);
        let n = self.slots.len();
        let buckets = self.scheme.buckets();
        let mut merged: Vec<u128> = Vec::new();
        let mut b: usize = 0;
        while b < buckets
            invariant
                b <= buckets,
                merged.len() == b,
                forall|j: int| 0 <= j < b ==> merged[j] == 0,
            decreases buckets - b,
        {
            merged.push(0u128);
            b = b + 1;
        }
        let mut i: usize = 0;
        while i < n
            invariant
                i <= n,
                self.wf(),
                n == self.slots.len(),
                buckets == self.scheme.bucket_count(),
                current == self@.generation_at(now),
                merged.len() == buckets,
                forall|j: int|
                    0 <= j < buckets ==> merged[j] == self@.merged_count(now, j, i as nat),
            decreases n - i,
        {
            let window = &self.slots[i];
            let g = window.generation();
            proof {
                assert(self@.slots[i as int] == window@);
                assert(self.slots[i as int].wf());
                assert forall|j: int| 0 <= j < buckets implies merged[j] <= i * u64::MAX by {
                    lemma_merged_count_bound(self@, now, j, i as nat);
                }
                assert(i * u64::MAX + u64::MAX <= u128::MAX) by (nonlinear_arith)
                    requires
                        i <= u64::MAX,
                ;
            }
            if is_live(g, current, n) {
                Self::add_window(window, &mut merged, Ghost((i * u64::MAX) as nat));
            }
            i = i + 1;
        }
        proof {
            assert(wide_counts(merged@) =~= self@.merged(now));
            lemma_merged_total_bound(self@, now);
            lemma_model_is_ring(self@, now);
        }
        percentile_of(&self.scheme, &merged, p)
    }
}

} // verus!

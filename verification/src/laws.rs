//! What holds of a heatmap over whole histories of samples.

use vstd::prelude::*;
use vstd::arithmetic::div_mod::{
    lemma_div_is_ordered, lemma_fundamental_div_mod, lemma_fundamental_div_mod_converse,
};
use crate::bucket::{law_value_close, lemma_index_in_range};
use crate::error::HeatmapError;
use crate::heatmap::HeatmapModel;
use crate::instant::Instant;
use crate::rank::{
    is_rank_bucket, lemma_prefix_sum_bound, lemma_prefix_sum_monotone, lemma_rank_bucket_unique,
    lemma_rank_in_range, lemma_total_positive, prefix_sum, rank_bucket, rank_for, total_of,
    Percentile,
};

verus! {

/// One call of `increment`.
pub struct Sample {
    pub time: Instant,
    pub value: u64,
    pub count: u64,
}

/// The heatmap `h` after the samples were recorded in order.
pub open spec fn replay(h: HeatmapModel, samples: Seq<Sample>) -> HeatmapModel
    decreases samples.len(),
{
    if samples.len() == 0 {
        h
    } else {
        let last = samples.last();
        replay(h, samples.drop_last()).increment(last.time, last.value, last.count)
    }
}

/// Whether sample `k` can have put a count into bucket `b` of a slot owned
/// by `generation`.
pub open spec fn is_source(
    h: HeatmapModel,
    samples: Seq<Sample>,
    generation: u64,
    b: int,
    k: int,
) -> bool {
    &&& 0 <= k < samples.len()
    &&& samples[k].count > 0
    &&& samples[k].time.nanos >= h.created
    &&& h.scheme.index_of(samples[k].value) == b
    &&& h.generation_at(samples[k].time) == generation
}

/// Whether every count of `h` that is not zero has a source among the
/// samples.
pub open spec fn sourced(h: HeatmapModel, samples: Seq<Sample>) -> bool {
    forall|i: int, b: int|
        0 <= i < h.ring() && 0 <= b < h.scheme.bucket_count() && #[trigger] h.slots[i].counts[b]
            > 0 ==> exists|k: int| is_source(h, samples, h.slots[i].generation, b, k)
}

/// The value that stands for `value` in answers: the lower bound of its
/// bucket.
pub open spec fn quantized(h: HeatmapModel, value: u64) -> nat {
    h.scheme.value_of(h.scheme.index_of(value))
}

/// A generation fits 64 bits.
pub proof fn lemma_generation_fits(h: HeatmapModel, time: Instant)
    requires
        h.resolution > 0,
    ensures
        h.generation_at(time) <= u64::MAX,
{
    if time.nanos >= h.created {
        let x = (time.nanos - h.created) as int;
        let d = h.resolution as int;
        lemma_fundamental_div_mod(x, d);
        assert(x / d <= x) by (nonlinear_arith)
            requires
                x == d * (x / d) + x % d,
                0 <= x % d,
                d >= 1,
                x >= 0,
        ;
    }
}

/// Recording a sample keeps a heatmap well-formed.
pub proof fn lemma_increment_wf(h: HeatmapModel, time: Instant, value: u64, count: u64)
    requires
        h.wf(),
    ensures
        h.increment(time, value, count).wf(),
        h.increment(time, value, count).ring() == h.ring(),
        h.increment(time, value, count).scheme == h.scheme,
        h.increment(time, value, count).created == h.created,
        h.increment(time, value, count).resolution == h.resolution,
        h.increment(time, value, count).span == h.span,
{
    let after = h.increment(time, value, count);
    if time.nanos >= h.created {
        lemma_generation_fits(h, time);
        lemma_index_in_range(h.scheme, value);
        let g = h.generation_at(time);
        let slot = h.slot_of(g);
        assert forall|i: int| 0 <= i < after.ring() implies (#[trigger] after.slots[i]).counts.len()
            == after.scheme.bucket_count() && after.slots[i].generation as int % (
        after.ring() as int) == i by {
            if i != slot {
                assert(after.slots[i] == h.slots[i]);
            } else {
                assert(h.slots[i].counts.len() == h.scheme.bucket_count());
            }
        }
    }
}

/// Replaying samples keeps a heatmap well-formed.
pub proof fn lemma_replay_wf(h: HeatmapModel, samples: Seq<Sample>)
    requires
        h.wf(),
    ensures
        replay(h, samples).wf(),
        replay(h, samples).ring() == h.ring(),
        replay(h, samples).scheme == h.scheme,
        replay(h, samples).created == h.created,
        replay(h, samples).resolution == h.resolution,
        replay(h, samples).span == h.span,
    decreases samples.len(),
{
    if samples.len() > 0 {
        let last = samples.last();
        lemma_replay_wf(h, samples.drop_last());
        lemma_increment_wf(replay(h, samples.drop_last()), last.time, last.value, last.count);
    }
}

/// Every count of a heatmap that began without samples goes back to one of
/// the samples recorded since.
pub proof fn lemma_replay_sourced(h: HeatmapModel, samples: Seq<Sample>)
    requires
        h.wf(),
        h.is_fresh(),
    ensures
        sourced(replay(h, samples), samples),
    decreases samples.len(),
{
    let after = replay(h, samples);
    lemma_replay_wf(h, samples);
    if samples.len() == 0 {
        assert forall|i: int, b: int|
            0 <= i < after.ring() && 0 <= b < after.scheme.bucket_count()
                && #[trigger] after.slots[i].counts[b] > 0 implies exists|k: int|
            is_source(after, samples, after.slots[i].generation, b, k) by {
            assert(after.slots[i].counts[b] == 0);
        }
    } else {
        let earlier = samples.drop_last();
        let last = samples.last();
        let before = replay(h, earlier);
        lemma_replay_sourced(h, earlier);
        lemma_replay_wf(h, earlier);
        lemma_generation_fits(before, last.time);
        lemma_index_in_range(before.scheme, last.value);
        let n = samples.len() - 1;
        assert forall|i: int, b: int|
            0 <= i < after.ring() && 0 <= b < after.scheme.bucket_count()
                && #[trigger] after.slots[i].counts[b] > 0 implies exists|k: int|
            is_source(after, samples, after.slots[i].generation, b, k) by {
            let g = before.generation_at(last.time);
            let slot = before.slot_of(g);
            let target = before.scheme.index_of(last.value) as int;
            if last.time.nanos >= before.created && i == slot && (before.slots[i].generation != g
                || (b == target && before.slots[i].counts[b] == 0)) {
                assert(before.slots[i].counts.len() == before.scheme.bucket_count());
                assert(b == target);
                assert(last.count > 0);
                assert(samples[n] == last);
                assert(is_source(after, samples, after.slots[i].generation, b, n));
            } else {
                assert(before.slots[i].counts.len() == before.scheme.bucket_count());
                assert(before.slots[i].counts[b] > 0);
                assert(before.slots[i].generation == after.slots[i].generation);
                let k = choose|k: int| is_source(before, earlier, before.slots[i].generation, b, k);
                assert(earlier[k] == samples[k]);
                assert(is_source(after, samples, after.slots[i].generation, b, k));
            }
        }
    }
}

/// A merged count that is not zero comes from a slot that counts.
pub proof fn lemma_merged_has_slot(h: HeatmapModel, now: Instant, b: int, n: nat) -> (i: int)
    requires
        h.merged_count(now, b, n) > 0,
    ensures
        0 <= i < n,
        h.live(i, now),
        h.slots[i].counts[b] > 0,
    decreases n,
{
    if h.live(n - 1, now) && h.slots[n - 1].counts[b] > 0 {
        n - 1
    } else {
        lemma_merged_has_slot(h, now, b, (n - 1) as nat)
    }
}

/// A merged count is at least the count of any slot that counts.
pub proof fn lemma_merged_covers_slot(h: HeatmapModel, now: Instant, b: int, n: nat, i: int)
    requires
        0 <= i < n,
        h.live(i, now),
    ensures
        h.merged_count(now, b, n) >= h.slots[i].counts[b],
    decreases n,
{
    if i < n - 1 {
        lemma_merged_covers_slot(h, now, b, (n - 1) as nat, i);
    }
}

/// Whole slots of time add whole generations.
pub proof fn lemma_generation_after(h: HeatmapModel, then: Instant, now: Instant, slots: nat)
    requires
        h.resolution > 0,
        then.nanos >= h.created,
        now.nanos >= then.nanos + slots * h.resolution,
    ensures
        h.generation_at(now) >= h.generation_at(then) + slots,
{
    let d = h.resolution as int;
    let a = (then.nanos - h.created) as int;
    let x = a + slots * d;
    lemma_fundamental_div_mod(a, d);
    assert(x == (a / d + slots) * d + a % d) by (nonlinear_arith)
        requires
            x == a + slots * d,
            a == d * (a / d) + a % d,
    ;
    lemma_fundamental_div_mod_converse(x, d, a / d + slots, a % d);
    lemma_div_is_ordered(x, (now.nanos - h.created) as int, d);
}

/// An answer is the stand-in of a recorded sample and never more than that
/// sample: whatever was recorded, at whatever times, a query on a heatmap
/// that began without samples returns `Empty` or the lower bound of the
/// bucket of a sample that was recorded with a count above zero.
pub proof fn law_answer_is_a_sample(
    h: HeatmapModel,
    samples: Seq<Sample>,
    now: Instant,
    p: Percentile,
)
    requires
        h.wf(),
        h.is_fresh(),
    ensures
        replay(h, samples).percentile(now, p) matches Ok(x) ==> exists|k: int|
            0 <= k < samples.len() && samples[k].count > 0 && x == quantized(h, #[trigger] samples[k].value)
                && x <= samples[k].value,
        replay(h, samples).percentile(now, p) matches Err(e) ==> e == HeatmapError::Empty,
{
    let after = replay(h, samples);
    lemma_replay_wf(h, samples);
    lemma_replay_sourced(h, samples);
    let merged = after.merged(now);
    if total_of(merged) > 0 {
        let total = total_of(merged);
        let rank = rank_for(p, total);
        lemma_rank_in_range(p, total);
        let b = lemma_rank_bucket_exists(merged, rank);
        lemma_rank_bucket_unique(merged, rank, b, rank_bucket(merged, rank));
        let i = lemma_merged_has_slot(after, now, b, after.ring());
        assert(after.slots[i].counts[b] > 0);
        let k = choose|k: int| is_source(after, samples, after.slots[i].generation, b, k);
        law_value_close(h.scheme, samples[k].value);
    }
}

/// Where the counts add up to at least `rank`, which is at least one, the
/// running sum reaches `rank` at some bucket.
pub proof fn lemma_rank_bucket_exists(counts: Seq<nat>, rank: nat) -> (b: int)
    requires
        1 <= rank <= total_of(counts),
    ensures
        is_rank_bucket(counts, rank, b),
{
    lemma_rank_bucket_below(counts, rank, counts.len())
}

/// Where the first `n` counts add up to at least `rank`, the running sum
/// reaches `rank` at one of them.
proof fn lemma_rank_bucket_below(counts: Seq<nat>, rank: nat, n: nat) -> (b: int)
    requires
        n <= counts.len(),
        1 <= rank <= prefix_sum(counts, n),
    ensures
        is_rank_bucket(counts, rank, b),
        b < n,
    decreases n,
{
    if prefix_sum(counts, (n - 1) as nat) < rank {
        n - 1
    } else {
        lemma_rank_bucket_below(counts, rank, (n - 1) as nat)
    }
}

/// Once the span has passed since the latest sample, nothing is left: where
/// every sample lies a span or more before the time of the query, the query
/// returns `Empty`.
pub proof fn law_aged_out(h: HeatmapModel, samples: Seq<Sample>, now: Instant, p: Percentile)
    requires
        h.wf(),
        h.is_fresh(),
        forall|k: int| 0 <= k < samples.len() ==> (#[trigger] samples[k]).time.nanos + h.span <= now.nanos,
    ensures
        replay(h, samples).percentile(now, p) == Err::<u64, HeatmapError>(HeatmapError::Empty),
{
    let after = replay(h, samples);
    lemma_replay_wf(h, samples);
    lemma_replay_sourced(h, samples);
    let merged = after.merged(now);
    assert forall|b: int| 0 <= b < merged.len() implies merged[b] <= 0 by {
        if merged[b] > 0 {
            let i = lemma_merged_has_slot(after, now, b, after.ring());
            assert(after.slots[i].counts[b] > 0);
            let k = choose|k: int| is_source(after, samples, after.slots[i].generation, b, k);
            assert(samples[k].time.nanos + h.span <= now.nanos);
            lemma_generation_after(after, samples[k].time, now, after.ring());
        }
    }
    lemma_prefix_sum_bound(merged, merged.len(), 0);
    assert(merged.len() * 0 == 0) by (nonlinear_arith);
}

/// Two generations that share a slot and lie less than a ring apart are
/// one generation.
pub proof fn lemma_same_slot_same_generation(a: nat, b: nat, ring: nat)
    requires
        ring > 0,
        a % ring == b % ring,
        a < b + ring,
        b < a + ring,
    ensures
        a == b,
{
    let n = ring as int;
    lemma_fundamental_div_mod(a as int, n);
    lemma_fundamental_div_mod(b as int, n);
    let qa = a as int / n;
    let qb = b as int / n;
    assert(qa == qb) by (nonlinear_arith)
        requires
            n * qa - n * qb < n,
            n * qb - n * qa < n,
            n > 0,
    ;
}

/// Whether a sample recorded at `time` leaves the samples of `generation`
/// in place: its own generation lies less than a ring away.
pub open spec fn keeps(h: HeatmapModel, generation: nat, time: Instant) -> bool {
    time.nanos >= h.created ==> generation < h.generation_at(time) + h.ring() && h.generation_at(
        time,
    ) < generation + h.ring()
}

/// Samples that lie less than a ring away from `generation` leave its slot
/// to it, and the counts in that slot do not shrink.
pub proof fn lemma_replay_keeps(
    h: HeatmapModel,
    later: Seq<Sample>,
    generation: nat,
    b: int,
    count: u64,
)
    requires
        h.wf(),
        0 <= b < h.scheme.bucket_count(),
        h.slots[h.slot_of(generation)].generation == generation,
        h.slots[h.slot_of(generation)].counts[b] >= count,
        forall|k: int| 0 <= k < later.len() ==> keeps(h, generation, (#[trigger] later[k]).time),
    ensures
        replay(h, later).slots[h.slot_of(generation)].generation == generation,
        replay(h, later).slots[h.slot_of(generation)].counts[b] >= count,
    decreases later.len(),
{
    if later.len() > 0 {
        let earlier = later.drop_last();
        let last = later.last();
        let before = replay(h, earlier);
        assert forall|k: int| 0 <= k < earlier.len() implies keeps(
            h,
            generation,
            (#[trigger] earlier[k]).time,
        ) by {
            assert(earlier[k] == later[k]);
        }
        lemma_replay_keeps(h, earlier, generation, b, count);
        lemma_replay_wf(h, earlier);
        let slot = h.slot_of(generation);
        if last.time.nanos >= before.created {
            let g = before.generation_at(last.time);
            lemma_generation_fits(before, last.time);
            lemma_index_in_range(before.scheme, last.value);
            assert(keeps(h, generation, later[later.len() - 1].time));
            assert(before.slots[slot].counts.len() == before.scheme.bucket_count());
            if before.slot_of(g) == slot {
                lemma_same_slot_same_generation(g, generation, h.ring());
            }
        }
    }
}

/// Samples stay visible within the span: a query sees a recorded sample as
/// long as the generation of the query lies less than a ring ahead of the
/// sample's, and no sample recorded in between lies a ring or more away
/// from it.
pub proof fn law_visible_within_span(
    h: HeatmapModel,
    sample: Sample,
    later: Seq<Sample>,
    now: Instant,
    p: Percentile,
)
    requires
        h.wf(),
        sample.count > 0,
        sample.time.nanos >= h.created,
        forall|k: int|
            0 <= k < later.len() ==> keeps(h, h.generation_at(sample.time), (#[trigger] later[k]).time),
        h.generation_at(now) < h.generation_at(sample.time) + h.ring(),
    ensures
        replay(h.increment(sample.time, sample.value, sample.count), later).merged(
            now,
        )[h.scheme.index_of(sample.value) as int] >= sample.count,
        replay(h.increment(sample.time, sample.value, sample.count), later).percentile(now, p) is Ok,
{
    let first = h.increment(sample.time, sample.value, sample.count);
    let g = h.generation_at(sample.time);
    let slot = h.slot_of(g);
    let b = h.scheme.index_of(sample.value) as int;
    lemma_increment_wf(h, sample.time, sample.value, sample.count);
    lemma_generation_fits(h, sample.time);
    lemma_index_in_range(h.scheme, sample.value);
    assert(h.slots[slot].counts.len() == h.scheme.bucket_count());
    assert(first.slots[slot].counts[b] >= sample.count);
    assert forall|k: int| 0 <= k < later.len() implies keeps(first, g, (#[trigger] later[k]).time) by {
        assert(keeps(h, g, later[k].time));
    }
    lemma_replay_keeps(first, later, g, b, sample.count);
    lemma_replay_wf(first, later);
    let after = replay(first, later);
    assert(after.live(slot, now));
    lemma_merged_covers_slot(after, now, b, after.ring(), slot);
    lemma_total_positive(after.merged(now), b);
}

/// The first sample of a heatmap is its answer: after one sample on a
/// heatmap that began without samples, a query whose generation lies less
/// than a ring ahead returns, for every percentile, the lower bound of that
/// sample's bucket, which misses a value up to `max_value` by at most one
/// part in ten to the power of the precision.
pub proof fn law_first_sample(h: HeatmapModel, time: Instant, value: u64, now: Instant, p: Percentile)
    requires
        h.wf(),
        h.is_fresh(),
        time.nanos >= h.created,
        h.generation_at(now) < h.generation_at(time) + h.ring(),
    ensures
        h.increment(time, value, 1).percentile(now, p) == Ok::<u64, HeatmapError>(
            quantized(h, value) as u64,
        ),
        quantized(h, value) <= value,
        value <= h.scheme.max_value() ==> (value - quantized(h, value)) * h.scheme.sub_buckets()
            <= value,
        value < 2 * h.scheme.sub_buckets() && value <= h.scheme.max_value() ==> quantized(h, value)
            == value,
{
    let sample = Sample { time, value, count: 1 };
    let samples = seq![sample];
    assert(samples.drop_last() =~= Seq::<Sample>::empty());
    assert(replay(h, samples.drop_last()) == h);
    assert(replay(h, samples) == h.increment(time, value, 1));
    law_answer_is_a_sample(h, samples, now, p);
    law_visible_within_span(h, sample, Seq::<Sample>::empty(), now, p);
    assert(replay(h.increment(time, value, 1), Seq::<Sample>::empty()) == h.increment(time, value, 1));
    law_value_close(h.scheme, value);
}

/// One more sample in one bucket of one slot that counts adds one to the
/// merged count of that bucket and leaves the others.
proof fn lemma_merged_count_step(
    before: HeatmapModel,
    after: HeatmapModel,
    now: Instant,
    b: int,
    n: nat,
    slot: int,
    bucket: int,
)
    requires
        n <= before.ring(),
        before.ring() == after.ring(),
        before.created == after.created,
        before.resolution == after.resolution,
        0 <= slot < before.ring(),
        forall|i: int| 0 <= i < before.ring() && i != slot ==> after.slots[i] == before.slots[i],
        after.slots[slot].generation == before.slots[slot].generation,
        before.live(slot, now),
        0 <= bucket < before.slots[slot].counts.len(),
        0 <= b < before.slots[slot].counts.len(),
        before.slots[slot].counts[bucket] < u64::MAX,
        after.slots[slot].counts == before.slots[slot].counts.update(
            bucket,
            (before.slots[slot].counts[bucket] + 1) as u64,
        ),
    ensures
        after.merged_count(now, b, n) == before.merged_count(now, b, n) + (if b == bucket && slot
            < n {
            1nat
        } else {
            0nat
        }),
    decreases n,
{
    if n > 0 {
        lemma_merged_count_step(before, after, now, b, (n - 1) as nat, slot, bucket);
    }
}

/// One more in one count adds one to every running sum that takes it in.
proof fn lemma_prefix_sum_step(before: Seq<nat>, after: Seq<nat>, bucket: int, n: nat)
    requires
        n <= before.len(),
        0 <= bucket < before.len(),
        after == before.update(bucket, before[bucket] + 1),
    ensures
        prefix_sum(after, n) == prefix_sum(before, n) + (if bucket < n {
            1nat
        } else {
            0nat
        }),
    decreases n,
{
    if n > 0 {
        lemma_prefix_sum_step(before, after, bucket, (n - 1) as nat);
    }
}

/// Without rotation the samples add up, in whatever order the writers took
/// their turns.
proof fn lemma_replay_counts(h: HeatmapModel, samples: Seq<Sample>, now: Instant)
    requires
        h.wf(),
        h.is_fresh(),
        samples.len() <= u64::MAX,
        forall|k: int|
            0 <= k < samples.len() ==> (#[trigger] samples[k]).count == 1 && samples[k].time.nanos
                >= h.created && h.generation_at(samples[k].time) < h.ring(),
        h.generation_at(now) < h.ring(),
    ensures
        total_of(replay(h, samples).merged(now)) == samples.len(),
        forall|i: int|
            0 <= i < h.ring() ==> (#[trigger] replay(h, samples).slots[i]).generation == i,
    decreases samples.len(),
{
    let after = replay(h, samples);
    lemma_replay_wf(h, samples);
    if samples.len() == 0 {
        let merged = after.merged(now);
        assert forall|b: int| 0 <= b < merged.len() implies merged[b] <= 0 by {
            if merged[b] > 0 {
                let i = lemma_merged_has_slot(after, now, b, after.ring());
                assert(after.slots[i].counts[b] == 0);
            }
        }
        lemma_prefix_sum_bound(merged, merged.len(), 0);
        assert(merged.len() * 0 == 0) by (nonlinear_arith);
        let buckets = h.scheme.bucket_count();
        assert(h.ring() <= usize::MAX) by (nonlinear_arith)
            requires
                h.ring() * buckets <= usize::MAX,
                buckets >= 1,
        ;
    } else {
        let earlier = samples.drop_last();
        let last = samples.last();
        let before = replay(h, earlier);
        assert forall|k: int| 0 <= k < earlier.len() implies (#[trigger] earlier[k]).count == 1
            && earlier[k].time.nanos >= h.created && h.generation_at(earlier[k].time)
            < h.ring() by {
            assert(earlier[k] == samples[k]);
        }
        lemma_replay_counts(h, earlier, now);
        lemma_replay_wf(h, earlier);
        assert(samples[samples.len() - 1] == last);
        let g = before.generation_at(last.time);
        let slot = before.slot_of(g);
        let bucket = before.scheme.index_of(last.value) as int;
        lemma_index_in_range(before.scheme, last.value);
        vstd::arithmetic::div_mod::lemma_small_mod(g, before.ring());
        assert(slot == g);
        assert(before.slots[slot].generation == g);
        assert(before.slots[slot].counts.len() == before.scheme.bucket_count());
        let old_merged = before.merged(now);
        let new_merged = after.merged(now);
        assert(before.live(slot, now));
        lemma_merged_covers_slot(before, now, bucket, before.ring(), slot);
        lemma_prefix_sum_monotone(old_merged, (bucket + 1) as nat, old_merged.len());
        assert(before.slots[slot].counts[bucket] <= earlier.len());
        assert forall|b: int| 0 <= b < new_merged.len() implies new_merged[b] == old_merged.update(
            bucket,
            old_merged[bucket] + 1,
        )[b] by {
            lemma_merged_count_step(before, after, now, b, before.ring(), slot, bucket);
        }
        assert(new_merged =~= old_merged.update(bucket, old_merged[bucket] + 1));
        lemma_prefix_sum_step(old_merged, new_merged, bucket, old_merged.len());
        assert forall|i: int| 0 <= i < h.ring() implies (#[trigger] after.slots[i]).generation
            == i by {
            if i != slot {
                assert(after.slots[i] == before.slots[i]);
            }
        }
    }
}

/// Every sample is counted: where every sample has a count of one and
/// falls, as the query does, into the first span after the creation, so
/// that no slot changes hands, the merged counts add up to the number of
/// samples, whatever the order in which the samples of several writers
/// arrived.
pub proof fn law_counts_add_up(h: HeatmapModel, samples: Seq<Sample>, now: Instant)
    requires
        h.wf(),
        h.is_fresh(),
        samples.len() <= u64::MAX,
        forall|k: int|
            0 <= k < samples.len() ==> (#[trigger] samples[k]).count == 1 && samples[k].time.nanos
                >= h.created && h.generation_at(samples[k].time) < h.ring(),
        h.generation_at(now) < h.ring(),
    ensures
        total_of(replay(h, samples).merged(now)) == samples.len(),
{
    lemma_replay_counts(h, samples, now);
}

} // verus!

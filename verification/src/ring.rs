//! The merge of a ring: the counts of all slots that count in a query,
//! added bucket by bucket, and the percentile among them.
//!
//! A ring is given as plain values: one generation tag and one row of counts
//! for each slot. Both kinds of heatmap answer a query by this merge.

use vstd::prelude::*;
use crate::bucket::{law_value_in_own_bucket, BucketScheme};
use crate::error::HeatmapError;
use crate::heatmap::{counts_at, is_live, HeatmapModel};
use crate::instant::Instant;
use crate::laws::lemma_rank_bucket_exists;
use crate::rank::{
    lemma_prefix_sum_bound, lemma_rank_bucket_unique, lemma_rank_in_range, rank_bucket, rank_for,
    total_of, wide_counts, Percentile,
};
use crate::window::{percentile_of, percentile_value};

verus! {

/// The rows of a ring as sequences.
pub open spec fn ring_rows(counts: Seq<Vec<u64>>) -> Seq<Seq<u64>> {
    Seq::new(counts.len(), |i: int| counts[i]@)
}

/// The samples of bucket `b` in those of the first `n` slots that count in
/// a query made in generation `current`.
pub open spec fn ring_count(
    tags: Seq<u64>,
    rows: Seq<Seq<u64>>,
    current: u64,
    b: int,
    n: nat,
) -> nat
    decreases n,
{
    if n == 0 {
        0
    } else {
        let i = n - 1;
        ring_count(tags, rows, current, b, i as nat) + if counts_at(tags[i], current, tags.len()) {
            rows[i][b] as nat
        } else {
            0
        }
    }
}

/// The counts of all slots that count in a query made in generation
/// `current`, added bucket by bucket: each such slot once, and no other.
pub open spec fn merged_ring(tags: Seq<u64>, rows: Seq<Seq<u64>>, current: u64) -> Seq<nat> {
    Seq::new(
        if rows.len() > 0 {
            rows[0].len()
        } else {
            0
        },
        |b: int| ring_count(tags, rows, current, b, tags.len()),
    )
}

/// A merged count is at most as many full counters as slots went into it.
pub proof fn lemma_ring_count_bound(
    tags: Seq<u64>,
    rows: Seq<Seq<u64>>,
    current: u64,
    b: int,
    n: nat,
)
    ensures
        ring_count(tags, rows, current, b, n) <= n * u64::MAX,
    decreases n,
{
    if n > 0 {
        lemma_ring_count_bound(tags, rows, current, b, (n - 1) as nat);
        assert(n * u64::MAX == (n - 1) * u64::MAX + u64::MAX) by (nonlinear_arith);
    } else {
        assert(0 * u64::MAX == 0) by (nonlinear_arith);
    }
}

/// A merged count that is not zero comes from a slot that counts.
pub proof fn lemma_ring_count_has_slot(
    tags: Seq<u64>,
    rows: Seq<Seq<u64>>,
    current: u64,
    b: int,
    n: nat,
) -> (i: int)
    requires
        ring_count(tags, rows, current, b, n) > 0,
    ensures
        0 <= i < n,
        counts_at(tags[i], current, tags.len()),
        rows[i][b] > 0,
    decreases n,
{
    if counts_at(tags[n - 1], current, tags.len()) && rows[n - 1][b] > 0 {
        n - 1
    } else {
        lemma_ring_count_has_slot(tags, rows, current, b, (n - 1) as nat)
    }
}

/// The merge of a heatmap is the merge of its ring.
pub proof fn lemma_model_is_ring(h: HeatmapModel, now: Instant)
    requires
        h.wf(),
    ensures
        h.merged(now) == merged_ring(h.tags(), h.rows(), h.generation_at(now) as u64),
{
    let current = h.generation_at(now) as u64;
    assert(h.rows()[0] == h.slots[0].counts);
    assert forall|b: int| 0 <= b < h.scheme.bucket_count() implies h.merged_count(
        now,
        b,
        h.ring(),
    ) == ring_count(h.tags(), h.rows(), current, b, h.ring()) by {
        lemma_model_count_is_ring(h, now, b, h.ring());
    }
    assert(h.merged(now) =~= merged_ring(h.tags(), h.rows(), current));
}

proof fn lemma_model_count_is_ring(h: HeatmapModel, now: Instant, b: int, n: nat)
    requires
        n <= h.ring(),
    ensures
        h.merged_count(now, b, n) == ring_count(
            h.tags(),
            h.rows(),
            h.generation_at(now) as u64,
            b,
            n,
        ),
    decreases n,
{
    if n > 0 {
        lemma_model_count_is_ring(h, now, b, (n - 1) as nat);
    }
}

/// Whether slot `i` counts in a query made in generation `current` and
/// holds a sample in bucket `b`.
pub open spec fn is_counted(
    tags: Seq<u64>,
    rows: Seq<Seq<u64>>,
    current: u64,
    i: int,
    b: int,
) -> bool {
    &&& 0 <= i < tags.len()
    &&& counts_at(tags[i], current, tags.len())
    &&& 0 <= b < rows[i].len()
    &&& rows[i][b] > 0
}

/// Whether the rows of a ring have one count for each bucket of `scheme`.
pub open spec fn fits_scheme(scheme: BucketScheme, tags: Seq<u64>, rows: Seq<Seq<u64>>) -> bool {
    &&& tags.len() == rows.len()
    &&& forall|i: int| 0 <= i < rows.len() ==> (#[trigger] rows[i]).len() == scheme.bucket_count()
}

/// An answer comes from a slot that counts: whatever the ring holds, the
/// percentile of its merge is `Empty` or the lower bound of a bucket in
/// which a slot that counts holds a sample, and never more than
/// `max_value`.
pub proof fn law_ring_answer(
    scheme: BucketScheme,
    tags: Seq<u64>,
    rows: Seq<Seq<u64>>,
    current: u64,
    p: Percentile,
)
    requires
        fits_scheme(scheme, tags, rows),
    ensures
        percentile_value(scheme, merged_ring(tags, rows, current), p) matches Ok(x)
            ==> x <= scheme.max_value() && exists|i: int, b: int| #[trigger]
            is_counted(tags, rows, current, i, b) && x == scheme.value_of(b as nat),
        percentile_value(scheme, merged_ring(tags, rows, current), p) matches Err(e) ==> e
            == HeatmapError::Empty,
{
    let merged = merged_ring(tags, rows, current);
    if total_of(merged) > 0 {
        let rank = rank_for(p, total_of(merged));
        lemma_rank_in_range(p, total_of(merged));
        let b = lemma_rank_bucket_exists(merged, rank);
        lemma_rank_bucket_unique(merged, rank, b, rank_bucket(merged, rank));
        let i = lemma_ring_count_has_slot(tags, rows, current, b, tags.len());
        assert(rows[0].len() == scheme.bucket_count());
        assert(rows[i].len() == scheme.bucket_count());
        law_value_in_own_bucket(scheme, b as nat);
        assert(is_counted(tags, rows, current, i, b));
    }
}

/// Slots that do not count never contribute: where every slot lies a whole
/// ring or more behind the generation of the query, the answer is `Empty`,
/// whatever counts the slots still hold.
pub proof fn law_ring_aged_out(
    scheme: BucketScheme,
    tags: Seq<u64>,
    rows: Seq<Seq<u64>>,
    current: u64,
    p: Percentile,
)
    requires
        forall|i: int| 0 <= i < tags.len() ==> !counts_at(#[trigger] tags[i], current, tags.len()),
    ensures
        percentile_value(scheme, merged_ring(tags, rows, current), p) == Err::<u64, HeatmapError>(
            HeatmapError::Empty,
        ),
{
    let merged = merged_ring(tags, rows, current);
    assert forall|b: int| 0 <= b < merged.len() implies merged[b] <= 0 by {
        if merged[b] > 0 {
            let i = lemma_ring_count_has_slot(tags, rows, current, b, tags.len());
        }
    }
    lemma_prefix_sum_bound(merged, merged.len(), 0);
    assert(merged.len() * 0 == 0) by (nonlinear_arith);
}

/// Adds the counts of `row` to `merged`.
fn add_row(row: &Vec<u64>, merged: &mut Vec<u128>, Ghost(cap): Ghost<nat>)
    requires
        old(merged).len() == row.len(),
        cap + u64::MAX <= u128::MAX,
        forall|b: int| 0 <= b < old(merged).len() ==> old(merged)[b] <= cap,
    ensures
        final(merged).len() == old(merged).len(),
        forall|b: int| 0 <= b < old(merged).len() ==> final(merged)[b] == old(merged)[b] + row[b],
{
    let n = merged.len();
    let mut b: usize = 0;
    while b < n
        invariant
            b <= n,
            merged.len() == n,
            n == row.len(),
            cap + u64::MAX <= u128::MAX,
            forall|j: int| 0 <= j < b ==> merged[j] == old(merged)[j] + row[j],
            forall|j: int| b <= j < n ==> merged[j] == old(merged)[j],
            forall|j: int| 0 <= j < n ==> old(merged)[j] <= cap,
        decreases n - b,
    {
        let sum: u128 = merged[b] + row[b] as u128;
        merged.set(b, sum);
        b = b + 1;
    }
}

/// The value at percentile `p` among the samples of a ring, as a query
/// made in generation `current` sees them: the percentile of the merge of
/// all slots that count, or `Empty` where the merge holds no sample.
pub fn percentile_of_ring(
    scheme: &BucketScheme,
    tags: &Vec<u64>,
    counts: &Vec<Vec<u64>>,
    current: u64,
    p: Percentile,
) -> (r: Result<u64, HeatmapError>)
    requires
        tags.len() == counts.len(),
        tags.len() > 0,
        tags.len() * scheme.bucket_count() <= usize::MAX,
        forall|i: int| 0 <= i < counts.len() ==> (#[trigger] counts[i]).len() == scheme.bucket_count(),
    ensures
        r == percentile_value(*scheme, merged_ring(tags@, ring_rows(counts@), current), p),
{
    let ghost rows = ring_rows(counts@);
    let n = tags.len();
    let buckets = scheme.buckets();
    let mut merged: Vec<u128> = Vec::new();
    let mut b: usize = 0;
    while b < buckets
        invariant
            b <= buckets,
            merged.len() == b,
            forall|j: int| 0 <= j < b ==> merged[j] == 0,
        decreases buckets - b,
    {
        merged.push(0u128);
        b = b + 1;
    }
    let mut i: usize = 0;
    while i < n
        invariant
            i <= n,
            n == tags.len(),
            n == counts.len(),
            n > 0,
            rows == ring_rows(counts@),
            buckets == scheme.bucket_count(),
            merged.len() == buckets,
            forall|k: int| 0 <= k < counts.len() ==> (#[trigger] counts[k]).len() == buckets,
            forall|j: int|
                0 <= j < buckets ==> merged[j] == ring_count(tags@, rows, current, j, i as nat),
        decreases n - i,
    {
        let row = &counts[i];
        proof {
            assert(rows[i as int] == row@);
            assert forall|j: int| 0 <= j < buckets implies merged[j] <= i * u64::MAX by {
                lemma_ring_count_bound(tags@, rows, current, j, i as nat);
            }
            assert(i * u64::MAX + u64::MAX <= u128::MAX) by (nonlinear_arith)
                requires
                    i <= u64::MAX,
            ;
        }
        if is_live(tags[i], current, n) {
            add_row(row, &mut merged, Ghost((i * u64::MAX) as nat));
        }
        i = i + 1;
    }
    proof {
        assert(rows[0] == counts[0]@);
        assert(wide_counts(merged@) =~= merged_ring(tags@, rows, current));
        let cap = (n * u64::MAX) as nat;
        assert forall|j: int| 0 <= j < buckets implies wide_counts(merged@)[j] <= cap by {
            lemma_ring_count_bound(tags@, rows, current, j, n as nat);
        }
        lemma_prefix_sum_bound(wide_counts(merged@), buckets as nat, cap);
        assert(buckets * (n * u64::MAX) <= u128::MAX) by (nonlinear_arith)
            requires
                n * buckets <= usize::MAX,
                usize::MAX <= u64::MAX,
        ;
    }
    percentile_of(scheme, &merged, p)
}

} // verus!

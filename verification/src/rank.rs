//! Percentile ranks: which bucket of a histogram holds the sample at a given
//! percentile.
//!
//! A percentile is a fixed-point number in millionths of a percent. For a
//! histogram with `total` samples the rank of percentile `p` is `p` percent
//! of `total`, rounded up and at least one; the bucket asked for is the first
//! one at which the running sum of counts reaches the rank.

use vstd::prelude::*;
use vstd::arithmetic::div_mod::lemma_fundamental_div_mod_converse;
use vstd::arithmetic::div_mod::lemma_fundamental_div_mod;

verus! {

/// One percent, in millionths of a percent.
pub const PER_PERCENT: u64 = 1_000_000;

/// One hundred percent, in millionths of a percent.
pub const FULL_SCALE: u64 = 100_000_000;

/// A percentile in millionths of a percent. Anything above one hundred
/// percent counts as one hundred percent.
#[derive(Clone, Copy, Debug, PartialEq, Eq, Structural, Hash)]
pub struct Percentile {
    pub millionths: u64,
}

impl Percentile {
    /// The percentile of `whole` percent.
    pub fn from_percent(whole: u8) -> (p: Percentile)
        ensures
            p.millionths == whole * PER_PERCENT,
    {
        Percentile { millionths: whole as u64 * PER_PERCENT }
    }

    /// The percentile of `millionths` millionths of a percent.
    pub fn from_millionths(millionths: u64) -> (p: Percentile)
        ensures
            p.millionths == millionths,
    {
        Percentile { millionths }
    }

    /// This percentile in millionths of a percent, at most one hundred
    /// percent.
    pub open spec fn clamped(self) -> nat {
        if self.millionths > FULL_SCALE {
            FULL_SCALE as nat
        } else {
            self.millionths as nat
        }
    }
}

/// The sum of the first `n` counts.
pub open spec fn prefix_sum(counts: Seq<nat>, n: nat) -> nat
    decreases n,
{
    if n == 0 || n > counts.len() {
        0
    } else {
        prefix_sum(counts, (n - 1) as nat) + counts[n - 1]
    }
}

/// The sum of all counts.
pub open spec fn total_of(counts: Seq<nat>) -> nat {
    prefix_sum(counts, counts.len())
}

/// The rank of percentile `p` among `total` samples.
pub open spec fn rank_for(p: Percentile, total: nat) -> nat {
    let r = (p.clamped() * total + FULL_SCALE - 1) / (FULL_SCALE as int);
    if r <= 0 {
        1
    } else {
        r as nat
    }
}

/// Whether the running sum of `counts` reaches `rank` at bucket `b` and
/// not before.
pub open spec fn is_rank_bucket(counts: Seq<nat>, rank: nat, b: int) -> bool {
    &&& 0 <= b < counts.len()
    &&& prefix_sum(counts, b as nat) < rank
    &&& rank <= prefix_sum(counts, (b + 1) as nat)
}

/// The bucket at which the running sum of `counts` reaches `rank`.
pub open spec fn rank_bucket(counts: Seq<nat>, rank: nat) -> int {
    choose|b: int| is_rank_bucket(counts, rank, b)
}

/// The bucket that holds percentile `p`, if there is any sample.
pub open spec fn percentile_bucket(counts: Seq<nat>, p: Percentile) -> Option<int> {
    if total_of(counts) == 0 {
        None
    } else {
        Some(rank_bucket(counts, rank_for(p, total_of(counts))))
    }
}

/// The counts of a histogram as natural numbers.
pub open spec fn wide_counts(counts: Seq<u128>) -> Seq<nat> {
    Seq::new(counts.len(), |i: int| counts[i] as nat)
}

/// The counts of a window as natural numbers.
pub open spec fn plain_counts(counts: Seq<u64>) -> Seq<nat> {
    Seq::new(counts.len(), |i: int| counts[i] as nat)
}

/// Running sums never decrease.
pub proof fn lemma_prefix_sum_monotone(counts: Seq<nat>, a: nat, b: nat)
    requires
        a <= b <= counts.len(),
    ensures
        prefix_sum(counts, a) <= prefix_sum(counts, b),
    decreases b,
{
    if a < b {
        lemma_prefix_sum_monotone(counts, a, (b - 1) as nat);
    }
}

/// A running sum is at most as many times `cap` as it has terms, where no
/// count exceeds `cap`.
pub proof fn lemma_prefix_sum_bound(counts: Seq<nat>, n: nat, cap: nat)
    requires
        n <= counts.len(),
        forall|i: int| 0 <= i < counts.len() ==> counts[i] <= cap,
    ensures
        prefix_sum(counts, n) <= n * cap,
    decreases n,
{
    if n > 0 {
        lemma_prefix_sum_bound(counts, (n - 1) as nat, cap);
        assert(n * cap == (n - 1) * cap + cap) by (nonlinear_arith);
    } else {
        assert(0 * cap == 0) by (nonlinear_arith);
    }
}

/// A count that is not zero makes the total more than zero.
pub proof fn lemma_total_positive(counts: Seq<nat>, b: int)
    requires
        0 <= b < counts.len(),
        counts[b] > 0,
    ensures
        total_of(counts) > 0,
{
    lemma_prefix_sum_monotone(counts, (b + 1) as nat, counts.len());
}

/// At most one bucket is the rank bucket.
pub proof fn lemma_rank_bucket_unique(counts: Seq<nat>, rank: nat, a: int, b: int)
    requires
        is_rank_bucket(counts, rank, a),
        is_rank_bucket(counts, rank, b),
    ensures
        a == b,
{
    if a < b {
        lemma_prefix_sum_monotone(counts, (a + 1) as nat, b as nat);
    } else if b < a {
        lemma_prefix_sum_monotone(counts, (b + 1) as nat, a as nat);
    }
}

/// Percentile zero asks for the smallest bucket that holds a sample: the
/// bucket of rank one holds a sample, and no bucket below it does.
pub proof fn law_lowest_bucket(counts: Seq<nat>, b: int)
    requires
        is_rank_bucket(counts, 1, b),
    ensures
        counts[b] > 0,
        forall|j: int| 0 <= j < b ==> counts[j] == 0,
{
    assert forall|j: int| 0 <= j < b implies counts[j] == 0 by {
        lemma_prefix_sum_monotone(counts, (j + 1) as nat, b as nat);
    }
}

/// Percentile one hundred asks for the largest bucket that holds a sample:
/// the bucket whose rank is the total holds a sample, and no bucket above it
/// does.
pub proof fn law_highest_bucket(counts: Seq<nat>, b: int)
    requires
        total_of(counts) > 0,
        is_rank_bucket(counts, total_of(counts), b),
    ensures
        counts[b] > 0,
        forall|j: int| b < j < counts.len() ==> counts[j] == 0,
{
    assert forall|j: int| b < j < counts.len() implies counts[j] == 0 by {
        lemma_prefix_sum_monotone(counts, (b + 1) as nat, j as nat);
        lemma_prefix_sum_monotone(counts, (j + 1) as nat, counts.len());
    }
}

/// With at least one sample the rank lies between one and the total.
pub proof fn lemma_rank_in_range(p: Percentile, total: nat)
    requires
        total > 0,
    ensures
        1 <= rank_for(p, total) <= total,
        p.millionths == 0 ==> rank_for(p, total) == 1,
        p.millionths >= FULL_SCALE ==> rank_for(p, total) == total,
{
    let q = p.clamped();
    let f = FULL_SCALE as int;
    let x = q * total + f - 1;
    assert(q * total <= f * total) by (nonlinear_arith)
        requires
            q <= f,
    ;
    assert(0 <= q * total) by (nonlinear_arith);
    lemma_fundamental_div_mod(x, f);
    assert(f * (x / f) <= f * total + f - 1);
    assert(x / f <= total) by (nonlinear_arith)
        requires
            f * (x / f) <= f * total + f - 1,
            f > 0,
    ;
    if q == 0 {
        assert(q * total == 0) by (nonlinear_arith)
            requires
                q == 0,
        ;
        lemma_fundamental_div_mod_converse(x, f, 0, f - 1);
    }
    if q == f {
        assert(x == total * f + (f - 1)) by (nonlinear_arith)
            requires
                x == q * total + f - 1,
                q == f,
        ;
        lemma_fundamental_div_mod_converse(x, f, total as int, f - 1);
    }
}

/// The rank of percentile `p` among `total` samples.
pub fn rank_of(p: Percentile, total: u128) -> (rank: u128)
    requires
        total > 0,
    ensures
        rank == rank_for(p, total as nat),
        1 <= rank <= total,
{
    proof {
        lemma_rank_in_range(p, total as nat);
    }
    let q: u128 = if p.millionths > FULL_SCALE {
        FULL_SCALE as u128
    } else {
        p.millionths as u128
    };
    let full: u128 = FULL_SCALE as u128;
    let whole: u128 = total / full;
    let rest: u128 = total % full;
    assert(q * whole <= full * whole) by (nonlinear_arith)
        requires
            q <= full,
    ;
    assert(q * rest <= full * full) by (nonlinear_arith)
        requires
            q <= full,
            rest <= full,
    ;
    let tail: u128 = (q * rest + (full - 1)) / full;
    proof {
        let f = full as int;
        let x = q as int * total as int + f - 1;
        let y = q as int * rest as int + f - 1;
        lemma_fundamental_div_mod(total as int, f);
        lemma_fundamental_div_mod(y, f);
        assert(x == (q as int * whole as int + y / f) * f + y % f) by (nonlinear_arith)
            requires
                x == q as int * total as int + f - 1,
                y == q as int * rest as int + f - 1,
                total as int == f * (whole as int) + rest as int,
                y == f * (y / f) + y % f,
        ;
        lemma_fundamental_div_mod_converse(x, f, q as int * whole as int + y / f, y % f);
        assert(x / f <= total);
    }
    let r: u128 = q * whole + tail;
    if r == 0 {
        1
    } else {
        r
    }
}

/// The sum of all counts.
pub fn sum_counts(counts: &Vec<u128>) -> (total: u128)
    requires
        total_of(wide_counts(counts@)) <= u128::MAX,
    ensures
        total == total_of(wide_counts(counts@)),
{
    let ghost model = wide_counts(counts@);
    let mut total: u128 = 0;
    let mut i: usize = 0;
    while i < counts.len()
        invariant
            i <= counts.len(),
            model == wide_counts(counts@),
            total == prefix_sum(model, i as nat),
            total_of(model) <= u128::MAX,
        decreases counts.len() - i,
    {
        proof {
            lemma_prefix_sum_monotone(model, (i + 1) as nat, model.len());
        }
        total = total + counts[i];
        i = i + 1;
    }
    total
}

/// The bucket of `counts` that holds percentile `p`, or `None` where
/// `counts` holds no sample.
pub fn find_percentile_bucket(counts: &Vec<u128>, p: Percentile) -> (found: Option<usize>)
    requires
        total_of(wide_counts(counts@)) <= u128::MAX,
    ensures
        found.is_none() <==> total_of(wide_counts(counts@)) == 0,
        found matches Some(b) ==> percentile_bucket(wide_counts(counts@), p) == Some(b as int)
            && is_rank_bucket(
            wide_counts(counts@),
            rank_for(p, total_of(wide_counts(counts@))),
            b as int,
        ),
{
    let ghost model = wide_counts(counts@);
    let total = sum_counts(counts);
    if total == 0 {
        return None;
    }
    let rank = rank_of(p, total);
    let mut running: u128 = 0;
    let mut i: usize = 0;
    while i < counts.len()
        invariant
            i <= counts.len(),
            model == wide_counts(counts@),
            running == prefix_sum(model, i as nat),
            running < rank <= total,
            total == total_of(model),
            rank == rank_for(p, total as nat),
        decreases counts.len() - i,
    {
        proof {
            lemma_prefix_sum_monotone(model, (i + 1) as nat, model.len());
        }
        running = running + counts[i];
        if running >= rank {
            proof {
                assert(is_rank_bucket(model, rank as nat, i as int));
                let chosen = rank_bucket(model, rank as nat);
                lemma_rank_bucket_unique(model, rank as nat, chosen, i as int);
            }
            return Some(i);
        }
        i = i + 1;
    }
    None
}

} // verus!

//! The bucket scheme: a log-linear mapping from values to bucket indices.
//!
//! Values below twice the number of sub-buckets are kept exactly. Above that,
//! every range from `s * 2^k` up to `s * 2^(k+1)` is cut into `s` buckets of
//! equal width `2^k`, where `s` is ten to the power of the precision. A bucket
//! is represented by its lower bound.

use vstd::prelude::*;

verus! {

/// Ten to the power of `p`.
pub open spec fn pow10(p: nat) -> nat
    decreases p,
{
    if p == 0 {
        1
    } else {
        10 * pow10((p - 1) as nat)
    }
}

/// The bucket index of `v` when every binary range holds `s` sub-buckets.
pub open spec fn raw_index(v: nat, s: nat) -> nat
    decreases v,
{
    if s == 0 || v < 2 * s {
        v
    } else {
        s + raw_index(v / 2, s)
    }
}

/// The smallest value that falls into bucket `i`.
pub open spec fn lower_bound(i: nat, s: nat) -> nat
    decreases i,
{
    if s == 0 || i < 2 * s {
        i
    } else {
        2 * lower_bound((i - s) as nat, s)
    }
}

/// The smaller of two numbers.
pub open spec fn least(a: nat, b: nat) -> nat {
    if a <= b {
        a
    } else {
        b
    }
}

/// `pow10` never decreases and is at least one.
pub proof fn lemma_pow10_monotone(a: nat, b: nat)
    requires
        a <= b,
    ensures
        1 <= pow10(a) <= pow10(b),
    decreases b,
{
    if a == 0 {
        if b > 0 {
            lemma_pow10_monotone(0, (b - 1) as nat);
        }
    } else {
        lemma_pow10_monotone((a - 1) as nat, (b - 1) as nat);
    }
}

/// An index never exceeds its value, and values of at least `s` have an
/// index of at least `s`.
pub proof fn lemma_raw_index_bounds(v: nat, s: nat)
    ensures
        raw_index(v, s) <= v,
        v >= s ==> raw_index(v, s) >= s,
    decreases v,
{
    if s != 0 && v >= 2 * s {
        lemma_raw_index_bounds(v / 2, s);
    }
}

/// The index is monotonic non-decreasing in the value.
pub proof fn lemma_raw_index_monotone(a: nat, b: nat, s: nat)
    requires
        a <= b,
    ensures
        raw_index(a, s) <= raw_index(b, s),
    decreases b,
{
    if s != 0 && b >= 2 * s {
        lemma_raw_index_bounds(b / 2, s);
        if a >= 2 * s {
            lemma_raw_index_monotone(a / 2, b / 2, s);
        }
    }
}

/// Indices of at least `s` have a lower bound of at least `s`.
pub proof fn lemma_lower_bound_floor(i: nat, s: nat)
    ensures
        i >= s ==> lower_bound(i, s) >= s,
    decreases i,
{
    if s != 0 && i >= 2 * s {
        lemma_lower_bound_floor((i - s) as nat, s);
    }
}

/// The lower bound is monotonic non-decreasing in the index.
pub proof fn lemma_lower_bound_monotone(i: nat, j: nat, s: nat)
    requires
        i <= j,
    ensures
        lower_bound(i, s) <= lower_bound(j, s),
    decreases j,
{
    if s != 0 && j >= 2 * s {
        lemma_lower_bound_floor((j - s) as nat, s);
        if i >= 2 * s {
            lemma_lower_bound_monotone((i - s) as nat, (j - s) as nat, s);
        }
    }
}

/// A bucket's lower bound falls into that bucket.
pub proof fn lemma_index_of_lower_bound(i: nat, s: nat)
    ensures
        raw_index(lower_bound(i, s), s) == i,
    decreases i,
{
    if s != 0 && i >= 2 * s {
        lemma_index_of_lower_bound((i - s) as nat, s);
        lemma_lower_bound_floor((i - s) as nat, s);
    }
}

/// The lower bound of a value's bucket is at most the value, and misses it
/// by at most one part in `s`.
pub proof fn lemma_quantization(v: nat, s: nat)
    requires
        s > 0,
    ensures
        lower_bound(raw_index(v, s), s) <= v,
        (v - lower_bound(raw_index(v, s), s) + 1) * s <= (if v >= s { v } else { s }),
        v < 2 * s ==> lower_bound(raw_index(v, s), s) == v,
    decreases v,
{
    if v >= 2 * s {
        let h = v / 2;
        lemma_quantization(h, s);
        lemma_raw_index_bounds(h, s);
        let e = h - lower_bound(raw_index(h, s), s);
        assert((v - lower_bound(raw_index(v, s), s) + 1) * s <= (2 * e + 2) * s) by (nonlinear_arith)
            requires
                v - lower_bound(raw_index(v, s), s) <= 2 * e + 1,
                s > 0,
        ;
        assert((2 * e + 2) * s == 2 * ((e + 1) * s)) by (nonlinear_arith);
    } else {
        assert((0 + 1) * s == s) by (nonlinear_arith);
    }
}

/// The largest precision whose power of ten is computed: from nineteen on,
/// twice that power exceeds every 64-bit value and all values are exact.
pub const EXACT_PRECISION: u8 = 19;

/// A bucket scheme for values up to `max_value`, keeping `precision`
/// significant decimal digits.
#[derive(Clone, Copy, Debug)]
pub struct BucketScheme {
    max_value: u64,
    precision: u8,
    sub: u64,
    count: usize,
}

impl BucketScheme {
    #[verifier::type_invariant]
    spec fn inv(self) -> bool {
        &&& self.precision < EXACT_PRECISION ==> self.sub as nat == pow10(self.precision as nat)
        &&& self.precision >= EXACT_PRECISION ==> self.sub == 0
        &&& self.sub <= 1_000_000_000_000_000_000
        &&& self.count as nat == Self::count_for(self.max_value, self.precision)
    }

    /// The largest value with a bucket of its own range.
    pub closed spec fn max_value(self) -> u64 {
        self.max_value
    }

    /// The number of significant decimal digits kept.
    pub closed spec fn precision(self) -> u8 {
        self.precision
    }

    /// The number of sub-buckets in each binary range.
    pub open spec fn sub_buckets(self) -> nat {
        pow10(self.precision() as nat)
    }

    /// The number of buckets a scheme with these parameters has.
    pub open spec fn count_for(max_value: u64, precision: u8) -> nat {
        raw_index(max_value as nat, pow10(precision as nat)) + 1
    }

    /// The number of buckets.
    pub open spec fn bucket_count(self) -> nat {
        Self::count_for(self.max_value(), self.precision())
    }

    /// The bucket of `value`: values above `max_value` fall into the last one.
    pub open spec fn index_of(self, value: u64) -> nat {
        raw_index(least(value as nat, self.max_value() as nat), self.sub_buckets())
    }

    /// The representative value of bucket `index`: its lower bound.
    pub open spec fn value_of(self, index: nat) -> nat {
        lower_bound(index, self.sub_buckets())
    }

    /// Whether a scheme with these parameters has a bucket count that a
    /// `usize` can hold.
    pub fn fits(max_value: u64, precision: u8) -> (ok: bool)
        ensures
            ok == (Self::count_for(max_value, precision) <= usize::MAX),
    {
        let sub = power_of_ten(precision);
        let top = index_with(max_value, sub);
        proof {
            lemma_exact_above(max_value as nat, precision as nat);
        }
        top < usize::MAX as u64
    }

    /// Creates the scheme.
    pub fn new(max_value: u64, precision: u8) -> (scheme: BucketScheme)
        requires
            Self::count_for(max_value, precision) <= usize::MAX,
        ensures
            scheme.max_value() == max_value,
            scheme.precision() == precision,
    {
        let sub = power_of_ten(precision);
        let top = index_with(max_value, sub);
        proof {
            lemma_exact_above(max_value as nat, precision as nat);
        }
        BucketScheme { max_value, precision, sub, count: (top + 1) as usize }
    }

    /// The largest value with a bucket of its own range.
    pub fn get_max_value(&self) -> (m: u64)
        ensures
            m == self.max_value(),
    {
        self.max_value
    }

    /// The number of significant decimal digits kept.
    pub fn get_precision(&self) -> (p: u8)
        ensures
            p == self.precision(),
    {
        self.precision
    }

    /// The number of buckets.
    pub fn buckets(&self) -> (n: usize)
        ensures
            n == self.bucket_count(),
            n > 0,
    {
        proof {
            use_type_invariant(self);
        }
        self.count
    }

    /// The bucket that `value` falls into.
    pub fn bucket_index(&self, value: u64) -> (i: usize)
        ensures
            i == self.index_of(value),
            i < self.bucket_count(),
    {
        proof {
            use_type_invariant(self);
            lemma_exact_above(least(value as nat, self.max_value as nat), self.precision as nat);
            lemma_raw_index_monotone(
                least(value as nat, self.max_value as nat),
                self.max_value as nat,
                self.sub_buckets(),
            );
        }
        let v = if value > self.max_value {
            self.max_value
        } else {
            value
        };
        index_with(v, self.sub) as usize
    }

    /// The representative value of bucket `index`.
    pub fn bucket_value(&self, index: usize) -> (v: u64)
        requires
            index < self.bucket_count(),
        ensures
            v == self.value_of(index as nat),
            v <= self.max_value(),
    {
        proof {
            use_type_invariant(self);
            let s = self.sub_buckets();
            lemma_pow10_monotone(0, self.precision as nat);
            lemma_lower_bound_monotone(index as nat, raw_index(self.max_value as nat, s), s);
            lemma_quantization(self.max_value as nat, s);
            lemma_exact_bound_above(index as nat, self.precision as nat);
        }
        bound_with(index as u64, self.sub, Ghost(self.max_value as nat))
    }
}

/// Every value has a bucket.
pub proof fn lemma_index_in_range(scheme: BucketScheme, value: u64)
    ensures
        scheme.index_of(value) < scheme.bucket_count(),
{
    lemma_raw_index_monotone(
        least(value as nat, scheme.max_value() as nat),
        scheme.max_value() as nat,
        scheme.sub_buckets(),
    );
}

/// The bucket index never decreases as the value grows.
pub proof fn law_index_monotone(scheme: BucketScheme, a: u64, b: u64)
    requires
        a <= b,
    ensures
        scheme.index_of(a) <= scheme.index_of(b),
{
    lemma_raw_index_monotone(
        least(a as nat, scheme.max_value() as nat),
        least(b as nat, scheme.max_value() as nat),
        scheme.sub_buckets(),
    );
}

/// The value that stands for `value` is never more than `value` or than
/// `max_value`; for a value up to `max_value` it misses the value by at
/// most one part in ten to the power of the precision, and not at all below
/// twice that power.
pub proof fn law_value_close(scheme: BucketScheme, value: u64)
    ensures
        scheme.value_of(scheme.index_of(value)) <= value,
        scheme.value_of(scheme.index_of(value)) <= scheme.max_value(),
        value <= scheme.max_value() ==> (value - scheme.value_of(scheme.index_of(value)))
            * scheme.sub_buckets() <= value,
        value <= scheme.max_value() && value < 2 * scheme.sub_buckets() ==> scheme.value_of(
            scheme.index_of(value),
        ) == value,
{
    let s = scheme.sub_buckets();
    let v = least(value as nat, scheme.max_value() as nat);
    lemma_pow10_monotone(0, scheme.precision() as nat);
    lemma_quantization(v, s);
    let q = scheme.value_of(scheme.index_of(value));
    if value <= scheme.max_value() {
        assert((value - q) * s <= value) by (nonlinear_arith)
            requires
                (value - q + 1) * s <= (if value >= s { value as int } else { s as int }),
                q <= value,
                s >= 1,
        ;
    }
}

/// A value that stands for a bucket falls into that bucket.
pub proof fn law_value_in_own_bucket(scheme: BucketScheme, index: nat)
    requires
        index < scheme.bucket_count(),
    ensures
        scheme.value_of(index) <= scheme.max_value(),
        raw_index(scheme.value_of(index), scheme.sub_buckets()) == index,
{
    let s = scheme.sub_buckets();
    lemma_pow10_monotone(0, scheme.precision() as nat);
    lemma_index_of_lower_bound(index, s);
    lemma_lower_bound_monotone(index, raw_index(scheme.max_value() as nat, s), s);
    lemma_quantization(scheme.max_value() as nat, s);
}

/// Two to the power of `k`.
pub open spec fn pow2(k: nat) -> nat
    decreases k,
{
    if k == 0 {
        1
    } else {
        2 * pow2((k - 1) as nat)
    }
}

/// Ten to the power of nineteen is more than half of what 64 bits hold.
proof fn lemma_pow10_large(p: nat)
    requires
        p >= EXACT_PRECISION,
    ensures
        pow10(p) >= 0x8000_0000_0000_0000,
{
    reveal_with_fuel(pow10, 20);
    lemma_pow10_monotone(19, p);
}

/// Below nineteen, a power of ten is at most ten to the eighteenth.
proof fn lemma_pow10_small(p: nat)
    requires
        p < EXACT_PRECISION,
    ensures
        1 <= pow10(p) <= 1_000_000_000_000_000_000,
{
    reveal_with_fuel(pow10, 20);
    lemma_pow10_monotone(p, 18);
}

/// With a precision of nineteen or more, every 64-bit value is its own index.
proof fn lemma_exact_above(v: nat, p: nat)
    requires
        v <= u64::MAX,
    ensures
        p >= EXACT_PRECISION ==> raw_index(v, pow10(p)) == v,
{
    if p >= EXACT_PRECISION {
        lemma_pow10_large(p);
    }
}

/// With a precision of nineteen or more, every 64-bit index is its own bound.
proof fn lemma_exact_bound_above(i: nat, p: nat)
    requires
        i <= u64::MAX,
    ensures
        p >= EXACT_PRECISION ==> lower_bound(i, pow10(p)) == i,
{
    if p >= EXACT_PRECISION {
        lemma_pow10_large(p);
    }
}

/// Ten to the power of `precision`, or zero where that power makes every
/// value exact.
fn power_of_ten(precision: u8) -> (s: u64)
    ensures
        precision < EXACT_PRECISION ==> s as nat == pow10(precision as nat),
        precision >= EXACT_PRECISION ==> s == 0,
        s <= 1_000_000_000_000_000_000,
{
    if precision >= EXACT_PRECISION {
        return 0;
    }
    proof {
        lemma_pow10_small(precision as nat);
    }
    let mut s: u64 = 1;
    let mut i: u8 = 0;
    while i < precision
        invariant
            i <= precision < EXACT_PRECISION,
            s as nat == pow10(i as nat),
        decreases precision - i,
    {
        proof {
            lemma_pow10_small((i + 1) as nat);
        }
        s = s * 10;
        i = i + 1;
    }
    s
}

/// The index of `v` with `sub` sub-buckets; zero stands for a scheme in
/// which all values are exact.
fn index_with(v: u64, sub: u64) -> (i: u64)
    requires
        sub <= 1_000_000_000_000_000_000,
    ensures
        sub > 0 ==> i as nat == raw_index(v as nat, sub as nat),
        sub == 0 ==> i == v,
{
    if sub == 0 {
        return v;
    }
    let mut w: u64 = v;
    let mut base: u64 = 0;
    while w >= 2 * sub
        invariant
            0 < sub <= 1_000_000_000_000_000_000,
            w <= v,
            base as nat + raw_index(w as nat, sub as nat) == raw_index(v as nat, sub as nat),
        decreases w,
    {
        proof {
            lemma_raw_index_bounds(v as nat, sub as nat);
            lemma_raw_index_bounds((w / 2) as nat, sub as nat);
        }
        w = w / 2;
        base = base + sub;
    }
    proof {
        lemma_raw_index_bounds(v as nat, sub as nat);
    }
    base + w
}

/// Doubling `k` times multiplies a lower bound by two to the `k`.
proof fn lemma_lower_bound_unfold(i: nat, s: nat, k: nat)
    requires
        s > 0,
        i >= s * (k + 1),
    ensures
        lower_bound(i, s) == pow2(k) * lower_bound((i - k * s) as nat, s),
    decreases k,
{
    if k > 0 {
        assert(s * (k + 1) == s * k + s && k * s == s * k && (k - 1) * s == s * k - s)
            by (nonlinear_arith);
        assert(s * k >= s) by (nonlinear_arith)
            requires
                k >= 1,
                s > 0,
        ;
        lemma_lower_bound_unfold((i - s) as nat, s, (k - 1) as nat);
        let rest = lower_bound((i - k * s) as nat, s);
        assert(2 * (pow2((k - 1) as nat) * rest) == pow2(k) * rest) by (nonlinear_arith)
            requires
                pow2(k) == 2 * pow2((k - 1) as nat),
        ;
    } else {
        assert(0 * s == 0) by (nonlinear_arith);
        assert(pow2(0) * lower_bound(i, s) == lower_bound(i, s)) by (nonlinear_arith)
            requires
                pow2(0) == 1,
        ;
    }
}

/// The lower bound of bucket `i` with `sub` sub-buckets; zero stands for a
/// scheme in which all values are exact.
fn bound_with(i: u64, sub: u64, Ghost(limit): Ghost<nat>) -> (v: u64)
    requires
        sub <= 1_000_000_000_000_000_000,
        limit <= u64::MAX,
        sub > 0 ==> lower_bound(i as nat, sub as nat) <= limit,
    ensures
        sub > 0 ==> v as nat == lower_bound(i as nat, sub as nat),
        sub == 0 ==> v == i,
{
    if sub == 0 {
        return i;
    }
    let mut j: u64 = i;
    let mut k: u64 = 0;
    while j >= 2 * sub
        invariant
            0 < sub <= 1_000_000_000_000_000_000,
            j <= i,
            k <= i,
            k > 0 ==> j >= sub,
            i as nat == j as nat + k as nat * sub as nat,
        decreases j,
    {
        assert((k + 1) * sub == k * sub + sub) by (nonlinear_arith);
        assert(k + 1 <= (k + 1) * sub) by (nonlinear_arith)
            requires
                sub >= 1,
        ;
        j = j - sub;
        k = k + 1;
    }
    proof {
        if k > 0 {
            assert(sub as nat * (k as nat + 1) == k as nat * sub as nat + sub as nat)
                by (nonlinear_arith);
        } else {
            assert(0 * sub as nat == 0) by (nonlinear_arith);
            assert(sub as nat * (0 + 1) == sub as nat) by (nonlinear_arith);
        }
        if i as nat >= sub as nat * (k as nat + 1) {
            lemma_lower_bound_unfold(i as nat, sub as nat, k as nat);
        }
    }
    if k == 0 {
        return j;
    }
    let ghost whole = lower_bound(i as nat, sub as nat);
    let mut v: u64 = j;
    let mut r: u64 = k;
    while r > 0
        invariant
            whole <= limit <= u64::MAX,
            whole == pow2(r as nat) * v as nat,
        decreases r,
    {
        proof {
            lemma_pow2_positive((r - 1) as nat);
        }
        assert(pow2(r as nat) * v as nat == pow2((r - 1) as nat) * (2 * v as nat))
            by (nonlinear_arith)
            requires
                pow2(r as nat) == 2 * pow2((r - 1) as nat),
        ;
        assert(2 * v as nat <= whole) by (nonlinear_arith)
            requires
                whole == pow2((r - 1) as nat) * (2 * v as nat),
                pow2((r - 1) as nat) >= 1,
        ;
        v = 2 * v;
        r = r - 1;
    }
    assert(pow2(0) * v as nat == v as nat) by (nonlinear_arith)
        requires
            pow2(0) == 1,
    ;
    v
}

/// Two to any power is at least one.
proof fn lemma_pow2_positive(k: nat)
    ensures
        pow2(k) >= 1,
    decreases k,
{
    if k > 0 {
        lemma_pow2_positive((k - 1) as nat);
    }
}

} // verus!

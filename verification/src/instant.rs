//! Points in time and spans of time, counted in whole nanoseconds or, for the
//! coarse types, in whole seconds.

use vstd::prelude::*;

verus! {

pub const MILLIS_PER_SEC: u64 = 1_000;

pub const MICROS_PER_SEC: u64 = 1_000_000;

pub const NANOS_PER_SEC: u64 = 1_000_000_000;

pub const NANOS_PER_MILLI: u64 = 1_000_000;

pub const NANOS_PER_MICRO: u64 = 1_000;

/// `a * b`, or the largest 64-bit value where the product exceeds it.
pub open spec fn saturating_product(a: nat, b: nat) -> nat {
    if a * b > u64::MAX {
        u64::MAX as nat
    } else {
        a * b
    }
}

/// `a + b`, or the largest 64-bit value where the sum exceeds it.
pub open spec fn saturating_sum(a: nat, b: nat) -> nat {
    if a + b > u64::MAX {
        u64::MAX as nat
    } else {
        a + b
    }
}

fn scaled(amount: u64, unit: u64) -> (n: u64)
    ensures
        n as nat == saturating_product(amount as nat, unit as nat),
{
    match amount.checked_mul(unit) {
        Some(n) => n,
        None => u64::MAX,
    }
}

fn summed(a: u64, b: u64) -> (n: u64)
    ensures
        n as nat == saturating_sum(a as nat, b as nat),
{
    match a.checked_add(b) {
        Some(n) => n,
        None => u64::MAX,
    }
}

/// A span of time in nanoseconds.
#[derive(Clone, Copy, Debug, PartialEq, Eq, Structural, PartialOrd, Ord, Hash)]
pub struct Duration {
    pub nanos: u64,
}

impl Duration {
    /// A span of `secs` seconds and `nanos` nanoseconds; spans beyond what
    /// 64 bits of nanoseconds hold become the longest span.
    pub fn new(secs: u64, nanos: u32) -> (d: Duration)
        ensures
            d.nanos as nat == saturating_sum(
                saturating_product(secs as nat, NANOS_PER_SEC as nat),
                nanos as nat,
            ),
    {
        Duration { nanos: summed(scaled(secs, NANOS_PER_SEC), nanos as u64) }
    }

    pub fn from_secs(secs: u64) -> (d: Duration)
        ensures
            d.nanos as nat == saturating_product(secs as nat, NANOS_PER_SEC as nat),
    {
        Duration { nanos: scaled(secs, NANOS_PER_SEC) }
    }

    pub fn from_millis(millis: u64) -> (d: Duration)
        ensures
            d.nanos as nat == saturating_product(millis as nat, NANOS_PER_MILLI as nat),
    {
        Duration { nanos: scaled(millis, NANOS_PER_MILLI) }
    }

    pub fn from_micros(micros: u64) -> (d: Duration)
        ensures
            d.nanos as nat == saturating_product(micros as nat, NANOS_PER_MICRO as nat),
    {
        Duration { nanos: scaled(micros, NANOS_PER_MICRO) }
    }

    pub fn from_nanos(nanos: u64) -> (d: Duration)
        ensures
            d.nanos == nanos,
    {
        Duration { nanos }
    }

    /// The whole seconds in this span.
    pub fn as_secs(&self) -> (s: u64)
        ensures
            s == self.nanos / NANOS_PER_SEC,
    {
        self.nanos / NANOS_PER_SEC
    }

    /// The whole milliseconds in this span.
    pub fn as_millis(&self) -> (s: u64)
        ensures
            s == self.nanos / NANOS_PER_MILLI,
    {
        self.nanos / NANOS_PER_MILLI
    }

    /// The nanoseconds beyond the whole seconds.
    pub fn subsec_nanos(&self) -> (n: u32)
        ensures
            n == self.nanos % NANOS_PER_SEC,
    {
        (self.nanos % NANOS_PER_SEC) as u32
    }

    pub fn as_nanos(&self) -> (n: u64)
        ensures
            n == self.nanos,
    {
        self.nanos
    }
}

/// A point in time: nanoseconds on a clock that never runs backwards.
#[derive(Clone, Copy, Debug, PartialEq, Eq, Structural, PartialOrd, Ord, Hash)]
pub struct Instant {
    pub nanos: u64,
}

impl Instant {
    pub fn from_nanos(nanos: u64) -> (t: Instant)
        ensures
            t.nanos == nanos,
    {
        Instant { nanos }
    }

    pub fn as_nanos(&self) -> (n: u64)
        ensures
            n == self.nanos,
    {
        self.nanos
    }

    /// The time from `earlier` to this instant, or `None` where `earlier`
    /// is the later of the two.
    pub fn checked_duration_since(&self, earlier: Instant) -> (d: Option<Duration>)
        ensures
            self.nanos >= earlier.nanos ==> d == Some(
                (Duration { nanos: (self.nanos - earlier.nanos) as u64 }),
            ),
            self.nanos < earlier.nanos ==> d.is_none(),
    {
        if self.nanos >= earlier.nanos {
            Some(Duration { nanos: self.nanos - earlier.nanos })
        } else {
            None
        }
    }

    /// The time from `earlier` to this instant, or no time at all where
    /// `earlier` is the later of the two.
    pub fn duration_since(&self, earlier: Instant) -> (d: Duration)
        ensures
            self.nanos >= earlier.nanos ==> d.nanos == self.nanos - earlier.nanos,
            self.nanos < earlier.nanos ==> d.nanos == 0,
    {
        if self.nanos >= earlier.nanos {
            Duration { nanos: self.nanos - earlier.nanos }
        } else {
            Duration { nanos: 0 }
        }
    }

    /// This instant moved forward by `span`, stopping at the last instant
    /// that 64 bits of nanoseconds can name.
    pub fn saturating_add(&self, span: Duration) -> (t: Instant)
        ensures
            t.nanos as nat == saturating_sum(self.nanos as nat, span.nanos as nat),
    {
        Instant { nanos: summed(self.nanos, span.nanos) }
    }

    /// This instant moved forward by `span`, or `None` where 64 bits of
    /// nanoseconds cannot name the result.
    pub fn checked_add(&self, span: Duration) -> (t: Option<Instant>)
        ensures
            self.nanos + span.nanos <= u64::MAX ==> t == Some(
                (Instant { nanos: (self.nanos + span.nanos) as u64 }),
            ),
            self.nanos + span.nanos > u64::MAX ==> t.is_none(),
    {
        match self.nanos.checked_add(span.nanos) {
            Some(nanos) => Some(Instant { nanos }),
            None => None,
        }
    }
}

/// A span of time in whole seconds.
#[derive(Clone, Copy, Debug, PartialEq, Eq, Structural, PartialOrd, Ord, Hash)]
pub struct CoarseDuration {
    pub secs: u32,
}

impl CoarseDuration {
    pub fn from_secs(secs: u32) -> (d: CoarseDuration)
        ensures
            d.secs == secs,
    {
        CoarseDuration { secs }
    }

    pub fn as_secs(&self) -> (s: u32)
        ensures
            s == self.secs,
    {
        self.secs
    }
}

/// A point in time with a resolution of one second.
#[derive(Clone, Copy, Debug, PartialEq, Eq, Structural, PartialOrd, Ord, Hash)]
pub struct CoarseInstant {
    pub secs: u32,
}

impl CoarseInstant {
    pub fn from_secs(secs: u32) -> (t: CoarseInstant)
        ensures
            t.secs == secs,
    {
        CoarseInstant { secs }
    }

    pub fn as_secs(&self) -> (s: u32)
        ensures
            s == self.secs,
    {
        self.secs
    }

    /// The second in which `precise` falls, counted modulo two to the 32.
    pub fn of(precise: Instant) -> (t: CoarseInstant)
        ensures
            t.secs == (precise.nanos / NANOS_PER_SEC) % 0x1_0000_0000,
    {
        let secs: u64 = precise.nanos / NANOS_PER_SEC;
        CoarseInstant { secs: (secs % 0x1_0000_0000) as u32 }
    }

    /// The time from `earlier` to this instant, or no time at all where
    /// `earlier` is the later of the two.
    pub fn duration_since(&self, earlier: CoarseInstant) -> (d: CoarseDuration)
        ensures
            self.secs >= earlier.secs ==> d.secs == self.secs - earlier.secs,
            self.secs < earlier.secs ==> d.secs == 0,
    {
        if self.secs >= earlier.secs {
            CoarseDuration { secs: self.secs - earlier.secs }
        } else {
            CoarseDuration { secs: 0 }
        }
    }
}

/// A calendar time in UTC, held as whole seconds since the Unix epoch.
#[derive(Clone, Copy, Debug, PartialEq, Eq, Structural, PartialOrd, Ord, Hash)]
pub struct DateTime {
    pub unix: u32,
}

impl DateTime {
    pub fn from_unix_timestamp(unix: u32) -> (t: DateTime)
        ensures
            t.unix == unix,
    {
        DateTime { unix }
    }

    pub fn unix_timestamp(&self) -> (s: u32)
        ensures
            s == self.unix,
    {
        self.unix
    }
}

} // verus!

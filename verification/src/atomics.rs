//! Times held in atomic cells, so that many threads can share them without
//! a lock. Loads and stores are relaxed; exchanges are sequentially
//! consistent. Nothing is known of a loaded value: another thread may have
//! stored it.

use vstd::prelude::*;
use core::sync::atomic::{AtomicBool, AtomicU32, AtomicU64, AtomicUsize, Ordering};
use crate::instant::{saturating_sum, CoarseInstant, Duration, Instant};

verus! {

pub(crate) fn load_bool(cell: &AtomicBool) -> bool {
    cell.load(Ordering::Relaxed)
}

pub(crate) fn store_bool(cell: &AtomicBool, value: bool) {
    cell.store(value, Ordering::Relaxed)
}

pub(crate) fn load_u32(cell: &AtomicU32) -> u32 {
    cell.load(Ordering::Relaxed)
}

pub(crate) fn store_u32(cell: &AtomicU32, value: u32) {
    cell.store(value, Ordering::Relaxed)
}

/// Adds `value`, wrapping around, and returns what the cell held before.
pub(crate) fn fetch_add_u32(cell: &AtomicU32, value: u32) -> u32 {
    cell.fetch_add(value, Ordering::Relaxed)
}

pub(crate) fn load_u64(cell: &AtomicU64) -> u64 {
    cell.load(Ordering::Relaxed)
}

pub(crate) fn store_u64(cell: &AtomicU64, value: u64) {
    cell.store(value, Ordering::Relaxed)
}

/// Adds `value`, wrapping around, and returns what the cell held before.
pub(crate) fn fetch_add_u64(cell: &AtomicU64, value: u64) -> u64 {
    cell.fetch_add(value, Ordering::Relaxed)
}

/// Stores `new` if the cell holds `current`; returns what the cell held,
/// as `Ok` if the store took place.
pub(crate) fn exchange_u64(cell: &AtomicU64, current: u64, new: u64) -> Result<u64, u64> {
    cell.compare_exchange(current, new, Ordering::SeqCst, Ordering::SeqCst)
}

/// `held` less `value`, stopping at zero.
pub fn saturating_less(held: u64, value: u64) -> (rest: u64)
    ensures
        held >= value ==> rest == held - value,
        held < value ==> rest == 0,
{
    if held >= value {
        held - value
    } else {
        0
    }
}

/// `held` plus `value`, stopping at the largest 64-bit value.
pub fn saturating_more(held: u64, value: u64) -> (sum: u64)
    ensures
        sum as nat == saturating_sum(held as nat, value as nat),
{
    match held.checked_add(value) {
        Some(sum) => sum,
        None => u64::MAX,
    }
}

/// What a cell that held `held` holds after `value` was added to it
/// (`grow`) or taken from it, stopping at the ends of the 64-bit range.
pub fn adjusted(held: u64, grow: bool, value: u64) -> (after: u64)
    ensures
        grow ==> after as nat == saturating_sum(held as nat, value as nat),
        !grow && held >= value ==> after == held - value,
        !grow && held < value ==> after == 0,
{
    if grow {
        saturating_more(held, value)
    } else {
        saturating_less(held, value)
    }
}

/// `AtomicU64::fetch_update` with `adjusted`: adds `value` to the cell
/// (`grow`) or takes it from the cell, stopping at the ends of the range,
/// and returns what the cell held before. Nothing is claimed of that:
/// another thread may have stored it.
#[verifier::external_body]
pub(crate) fn fetch_adjust_u64(cell: &AtomicU64, grow: bool, value: u64) -> u64 {
    match cell.fetch_update(
        Ordering::Relaxed,
        Ordering::Relaxed,
        |held| Some(adjusted(held, grow, value)),
    ) {
        Ok(before) => before,
        Err(before) => before,
    }
}

pub(crate) fn load_usize(cell: &AtomicUsize) -> usize {
    cell.load(Ordering::Relaxed)
}

pub(crate) fn store_usize(cell: &AtomicUsize, value: usize) {
    cell.store(value, Ordering::Relaxed)
}

/// An instant that many threads can read and write.
pub struct AtomicInstant {
    nanos: AtomicU64,
}

impl AtomicInstant {
    pub fn new(value: Instant) -> AtomicInstant {
        AtomicInstant { nanos: AtomicU64::new(value.nanos) }
    }

    pub fn load(&self) -> Instant {
        Instant { nanos: load_u64(&self.nanos) }
    }

    pub fn store(&self, value: Instant) {
        store_u64(&self.nanos, value.nanos)
    }

    /// Stores `new` if the cell holds `current`; returns what the cell
    /// held, as `Ok` if the store took place.
    pub fn compare_exchange(&self, current: Instant, new: Instant) -> Result<Instant, Instant> {
        match exchange_u64(&self.nanos, current.nanos, new.nanos) {
            Ok(nanos) => Ok(Instant { nanos }),
            Err(nanos) => Err(Instant { nanos }),
        }
    }
}

/// A span of time that many threads can read and write.
pub struct AtomicDuration {
    nanos: AtomicU64,
}

impl AtomicDuration {
    pub fn new(value: Duration) -> AtomicDuration {
        AtomicDuration { nanos: AtomicU64::new(value.nanos) }
    }

    pub fn from_nanos(nanos: u64) -> AtomicDuration {
        AtomicDuration { nanos: AtomicU64::new(nanos) }
    }

    pub fn load(&self) -> Duration {
        Duration { nanos: load_u64(&self.nanos) }
    }

    pub fn store(&self, value: Duration) {
        store_u64(&self.nanos, value.nanos)
    }
}

/// A coarse instant that many threads can read and write.
pub struct AtomicCoarseInstant {
    secs: AtomicU32,
}

impl AtomicCoarseInstant {
    pub fn new(value: CoarseInstant) -> AtomicCoarseInstant {
        AtomicCoarseInstant { secs: AtomicU32::new(value.secs) }
    }

    pub fn load(&self) -> CoarseInstant {
        CoarseInstant { secs: load_u32(&self.secs) }
    }

    pub fn store(&self, value: CoarseInstant) {
        store_u32(&self.secs, value.secs)
    }

    /// Stores `value` and returns what the cell held before.
    pub fn swap(&self, value: CoarseInstant) -> CoarseInstant {
        CoarseInstant { secs: self.secs.swap(value.secs, Ordering::Relaxed) }
    }
}

} // verus!

//! A token bucket ratelimiter that many threads can share.
//!
//! The bucket holds up to `capacity` tokens. Whenever a tick is due,
//! `quantum` tokens are added, as far as the capacity allows, and the next
//! tick is put one interval later. How long the interval is depends on the
//! refill strategy: the fixed tick, or a length drawn by the caller.

use vstd::prelude::*;
use core::sync::atomic::{AtomicU64, AtomicUsize};
use crate::atomics::{
    fetch_add_u64, fetch_adjust_u64, load_u64, load_usize, store_usize, AtomicDuration,
    AtomicInstant,
};
use crate::instant::{Duration, Instant, NANOS_PER_SEC};

verus! {

/// Refill strategies define how the token bucket is refilled. The different
/// strategies can be used to alter the character of the smoothness of the
/// interval between tokens becoming available
#[derive(Clone, Copy, Debug, PartialEq, Eq, Structural)]
pub enum Refill {
    /// Use a fixed tick interval resulting in a smooth ratelimit
    Smooth,
    /// Use a uniform distribution for tick interval, between half and one
    /// and a half times the fixed tick.
    Uniform,
    /// Use a normal distribution for the tick interval centered on the
    /// duration matching that of the smooth refill strategy.
    Normal,
}

impl Refill {
    /// The number that stands for this strategy.
    pub open spec fn spec_index(self) -> usize {
        match self {
            Refill::Smooth => 0,
            Refill::Uniform => 1,
            Refill::Normal => 2,
        }
    }

    /// The number that stands for this strategy.
    pub fn index(self) -> (i: usize)
        ensures
            i == self.spec_index(),
    {
        match self {
            Refill::Smooth => 0,
            Refill::Uniform => 1,
            Refill::Normal => 2,
        }
    }

    /// The strategy that `v` stands for, if any.
    pub fn try_from(v: usize) -> (r: Result<Refill, ()>)
        ensures
            v == 0 ==> r == Ok::<Refill, ()>(Refill::Smooth),
            v == 1 ==> r == Ok::<Refill, ()>(Refill::Uniform),
            v == 2 ==> r == Ok::<Refill, ()>(Refill::Normal),
            v > 2 ==> r is Err,
            r matches Ok(strategy) ==> strategy.spec_index() == v,
    {
        if v == 0 {
            Ok(Refill::Smooth)
        } else if v == 1 {
            Ok(Refill::Uniform)
        } else if v == 2 {
            Ok(Refill::Normal)
        } else {
            Err(())
        }
    }
}

/// No token was in the bucket: waiting for one would block.
#[derive(Clone, Copy, Debug, PartialEq, Eq, Structural)]
pub struct WouldBlock;

/// The nanoseconds between two ticks that add `quantum` tokens each and
/// `rate` tokens per second together.
pub open spec fn tick_nanos(rate: u64, quantum: u64) -> int {
    NANOS_PER_SEC as int / (rate as int / quantum as int)
}

/// The time between two ticks that add `quantum` tokens each and `rate`
/// tokens per second together.
pub fn tick_interval(rate: u64, quantum: u64) -> (tick: Duration)
    requires
        quantum > 0,
        rate >= quantum,
    ensures
        tick.nanos == tick_nanos(rate, quantum),
{
    let per_second: u64 = rate / quantum;
    assert(per_second >= 1) by {
        vstd::arithmetic::div_mod::lemma_div_is_ordered(quantum as int, rate as int, quantum as int);
        vstd::arithmetic::div_mod::lemma_div_basics(quantum as int);
    }
    Duration { nanos: NANOS_PER_SEC / per_second }
}

/// The tokens per second that ticks of `tick`, each adding `quantum`
/// tokens, amount to. A tick of no time at all, and a rate beyond 64 bits,
/// count as the largest rate.
pub open spec fn rate_for(quantum: u64, tick: Duration) -> u64 {
    if tick.nanos == 0 || NANOS_PER_SEC * quantum / (tick.nanos as int) > u64::MAX {
        u64::MAX
    } else {
        (NANOS_PER_SEC * quantum / (tick.nanos as int)) as u64
    }
}

/// The tokens per second that ticks of `tick`, each adding `quantum`
/// tokens, amount to.
pub fn rate_of_tick(quantum: u64, tick: Duration) -> (rate: u64)
    ensures
        rate == rate_for(quantum, tick),
{
    if tick.nanos == 0 {
        return u64::MAX;
    }
    assert(NANOS_PER_SEC * quantum <= u128::MAX) by (nonlinear_arith)
        requires
            quantum <= u64::MAX,
            NANOS_PER_SEC == 1_000_000_000,
    ;
    let per_tick: u128 = NANOS_PER_SEC as u128 * quantum as u128;
    let rate: u128 = per_tick / tick.nanos as u128;
    if rate > u64::MAX as u128 {
        u64::MAX
    } else {
        rate as u64
    }
}

/// The tokens that a tick adds to a bucket of `capacity` that holds
/// `available`: `quantum`, or what the bucket still takes.
pub open spec fn refill_for(available: u64, capacity: u64, quantum: u64) -> u64 {
    if available >= capacity {
        0
    } else if available + quantum >= capacity {
        (capacity - available) as u64
    } else {
        quantum
    }
}

/// The tokens that a tick adds. A tick never fills a bucket beyond its
/// capacity.
pub fn refill_amount(available: u64, capacity: u64, quantum: u64) -> (amount: u64)
    ensures
        amount == refill_for(available, capacity, quantum),
        amount <= quantum,
        available <= capacity ==> available + amount <= capacity,
        available + amount <= u64::MAX,
{
    if available >= capacity {
        0
    } else if quantum >= capacity - available {
        capacity - available
    } else {
        quantum
    }
}

/// The time to the next tick: the fixed `tick` for the smooth strategy and
/// where no strategy is known, else what the caller drew.
pub open spec fn interval_for(strategy: Result<Refill, ()>, tick: Duration, drawn: Duration) -> Duration {
    match strategy {
        Ok(Refill::Uniform) => drawn,
        Ok(Refill::Normal) => drawn,
        _ => tick,
    }
}

/// The time to the next tick.
pub fn next_interval(strategy: Result<Refill, ()>, tick: Duration, drawn: Duration) -> (interval:
    Duration)
    ensures
        interval == interval_for(strategy, tick, drawn),
{
    match strategy {
        Ok(Refill::Uniform) => drawn,
        Ok(Refill::Normal) => drawn,
        _ => tick,
    }
}

/// Whether a tick is due at `now` when the next one was set for `next`.
pub fn is_due(now: Instant, next: Instant) -> (due: bool)
    ensures
        due == (now.nanos >= next.nanos),
{
    now.nanos >= next.nanos
}

/// Whether a bucket that holds `available` tokens gives one out.
pub open spec fn token_for(available: u64) -> Result<(), WouldBlock> {
    if available > 0 {
        Ok(())
    } else {
        Err(WouldBlock)
    }
}

/// Whether a bucket that holds `available` tokens gives one out: it does
/// unless it is empty.
pub fn token_of(available: u64) -> (r: Result<(), WouldBlock>)
    ensures
        r == token_for(available),
{
    if available > 0 {
        Ok(())
    } else {
        Err(WouldBlock)
    }
}

/// A token bucket ratelimiter
pub struct Ratelimiter {
    available: AtomicU64,
    capacity: u64,
    quantum: u64,
    strategy: AtomicUsize,
    tick: AtomicDuration,
    next: AtomicInstant,
}

impl Ratelimiter {
    #[verifier::type_invariant]
    spec fn inv(self) -> bool {
        self.quantum > 0
    }

    /// The most tokens that the bucket holds.
    pub closed spec fn capacity(self) -> u64 {
        self.capacity
    }

    /// The tokens that one tick adds.
    pub closed spec fn quantum(self) -> u64 {
        self.quantum
    }

    /// Create a new token bucket `Ratelimiter` which can hold up to
    /// `capacity` tokens. `quantum` tokens will be added to the bucket at
    /// `rate` times per second. The token bucket initially starts without
    /// any tokens, this ensures the rate does not start high initially. The
    /// first tick is due at `now`.
    pub fn new(capacity: u64, quantum: u64, rate: u64, now: Instant) -> (limiter: Ratelimiter)
        requires
            quantum > 0,
            rate >= quantum,
        ensures
            limiter.capacity() == capacity,
            limiter.quantum() == quantum,
    {
        let tick = tick_interval(rate, quantum);
        Ratelimiter {
            available: AtomicU64::new(0),
            capacity,
            quantum,
            strategy: AtomicUsize::new(Refill::Smooth.index()),
            tick: AtomicDuration::new(tick),
            next: AtomicInstant::new(now),
        }
    }

    /// Changes the rate of the `Ratelimiter`. The new rate will be in
    /// effect on the next tick.
    pub fn set_rate(&self, rate: u64)
        requires
            rate >= self.quantum(),
    {
        proof {
            use_type_invariant(self);
        }
        self.tick.store(tick_interval(rate, self.quantum));
    }

    /// Returns the current rate: what the quantum and the tick that this
    /// call read amount to.
    pub fn rate(&self) -> (rate: u64)
        ensures
            exists|tick: Duration| rate == rate_for(self.quantum(), tick),
    {
        let tick = self.tick.load();
        let rate = rate_of_tick(self.quantum, tick);
        assert(rate == rate_for(self.quantum(), tick));
        rate
    }

    /// Changes the refill strategy
    pub fn set_strategy(&self, strategy: Refill) {
        store_usize(&self.strategy, strategy.index())
    }

    /// The refill strategy, as last stored.
    pub fn strategy(&self) -> Result<Refill, ()> {
        Refill::try_from(load_usize(&self.strategy))
    }

    /// The most tokens that the bucket holds.
    pub fn get_capacity(&self) -> (capacity: u64)
        ensures
            capacity == self.capacity(),
    {
        self.capacity
    }

    /// The tokens that one tick adds.
    pub fn get_quantum(&self) -> (quantum: u64)
        ensures
            quantum == self.quantum(),
            quantum > 0,
    {
        proof {
            use_type_invariant(self);
        }
        self.quantum
    }

    /// Whether a tick is due at `now`, by the time of the next tick as
    /// last stored.
    pub fn due(&self, now: Instant) -> bool {
        is_due(now, self.next.load())
    }

    /// Moves the time forward: where a tick is due at `now`, puts the next
    /// tick one interval later and, if no other thread did so first, adds
    /// tokens. `drawn` is the interval for the strategies that draw one.
    pub fn tick(&self, now: Instant, drawn: Duration) {
        let next = self.next.load();
        if is_due(now, next) {
            let strategy = self.strategy();
            let interval = next_interval(strategy, self.tick.load(), drawn);
            if self.next.compare_exchange(next, next.saturating_add(interval)).is_ok() {
                let available = load_u64(&self.available);
                let amount = refill_amount(available, self.capacity, self.quantum);
                fetch_add_u64(&self.available, amount);
            }
        }
    }

    /// Non-blocking wait for one token at `now`, returns an `Ok` if a token
    /// was successfully acquired, returns an `Err` if it would block.
    pub fn try_wait(&self, now: Instant, drawn: Duration) -> Result<(), WouldBlock> {
        self.tick(now, drawn);
        let outcome = token_of(load_u64(&self.available));
        if outcome.is_ok() {
            fetch_adjust_u64(&self.available, false, 1);
        }
        outcome
    }
}

} // verus!

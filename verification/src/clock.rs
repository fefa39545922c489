//! A clock that caches what it last read: a precise instant, a coarse
//! instant and the Unix time. Reading the cache is cheap; `refresh` reads
//! the machine's clocks and renews it. The clock is handed to whoever needs
//! the time.

use vstd::prelude::*;
use core::sync::atomic::{AtomicBool, AtomicU32};
use std::time::SystemTime;
use crate::atomics::{
    fetch_add_u32, load_bool, load_u32, store_bool, store_u32, AtomicCoarseInstant, AtomicInstant,
};
use crate::instant::{CoarseInstant, DateTime, Instant, NANOS_PER_SEC};

verus! {

#[verifier::external_type_specification]
#[verifier::external_body]
pub struct ExSystemTime(std::time::SystemTime);

#[verifier::external_type_specification]
#[verifier::external_body]
pub struct ExMonotonicInstant(std::time::Instant);

/// The system time that lies `secs` seconds after the Unix epoch.
pub uninterp spec fn system_time_at(secs: u32) -> SystemTime;

/// `std::time::Instant::now`: a reading of the machine's monotonic clock.
/// Nothing is claimed of it.
#[verifier::external_body]
fn monotonic_now() -> std::time::Instant {
    std::time::Instant::now()
}

/// `std::time::Instant::elapsed`: the time since `origin` on the monotonic
/// clock, in nanoseconds. Nothing is claimed of it.
#[verifier::external_body]
fn nanos_since(origin: &std::time::Instant) -> u128 {
    origin.elapsed().as_nanos()
}

/// `std::time::SystemTime::now`: a reading of the machine's wall clock.
/// Nothing is claimed of it.
#[verifier::external_body]
fn system_now() -> SystemTime {
    SystemTime::now()
}

/// `std::time::SystemTime::duration_since` the Unix epoch, in whole
/// seconds; `None` where `time` lies before the epoch.
#[verifier::external_body]
fn seconds_since_epoch(time: &SystemTime) -> Option<u64> {
    match time.duration_since(SystemTime::UNIX_EPOCH) {
        Ok(elapsed) => Some(elapsed.as_secs()),
        Err(_) => None,
    }
}

/// The Unix epoch plus `secs` seconds, by `SystemTime`'s addition. The
/// result depends on `secs` alone.
#[verifier::external_body]
fn epoch_plus(secs: u32) -> (time: SystemTime)
    ensures
        time == system_time_at(secs),
{
    SystemTime::UNIX_EPOCH + std::time::Duration::from_secs(secs.into())
}

/// The cached time ran backwards by more than the clock tolerates.
#[derive(Clone, Copy, Debug, PartialEq, Eq, Structural)]
pub struct TimeReversal {
    /// The coarse instant that the clock held.
    pub previous: CoarseInstant,
    /// The earlier coarse instant that it was given.
    pub now: CoarseInstant,
}

/// The precise instant that stands for a timestamp in whole seconds.
pub fn instant_of_timestamp(timestamp: u32) -> (t: Instant)
    ensures
        t.nanos == timestamp * NANOS_PER_SEC,
{
    Instant { nanos: timestamp as u64 * NANOS_PER_SEC }
}

/// The low 32 bits of a count of seconds.
pub fn low_seconds(secs: u64) -> (low: u32)
    ensures
        low == secs % 0x1_0000_0000,
{
    (secs % 0x1_0000_0000) as u32
}

/// A count of nanoseconds as 64 bits hold it, or the largest such count.
pub fn clamp_nanos(nanos: u128) -> (n: u64)
    ensures
        nanos <= u64::MAX ==> n == nanos,
        nanos > u64::MAX ==> n == u64::MAX,
{
    if nanos > u64::MAX as u128 {
        u64::MAX
    } else {
        nanos as u64
    }
}

/// The seconds by which the Unix time moves on when the coarse clock moves
/// from `last` to `now`: their difference, and nothing where the coarse
/// clock did not move forward.
pub fn unix_advance(last: CoarseInstant, now: CoarseInstant) -> (delta: u32)
    ensures
        last.secs < now.secs ==> delta == now.secs - last.secs,
        last.secs >= now.secs ==> delta == 0,
{
    now.duration_since(last).secs
}

/// What a refresh does to the cached Unix time.
#[derive(Clone, Copy, Debug, PartialEq, Eq, Structural)]
pub enum UnixStep {
    /// The Unix time becomes this second.
    Take(u32),
    /// The Unix time moves on by these seconds.
    Advance(u32),
}

/// What a refresh does to the cached Unix time, for a clock that was
/// `initialized` or not and held `last`, when the coarse clock reads
/// `coarse` and the wall clock `wall` seconds since the epoch (`None`
/// before the epoch). The first refresh takes the Unix time from the wall
/// clock: its low 32 bits, and zero before the epoch. Later ones move it on
/// by the seconds that the coarse clock moved forward, and never back.
pub open spec fn unix_step_for(
    initialized: bool,
    last: CoarseInstant,
    coarse: CoarseInstant,
    wall: Option<u64>,
) -> UnixStep {
    if initialized {
        UnixStep::Advance(
            if last.secs < coarse.secs {
                (coarse.secs - last.secs) as u32
            } else {
                0
            },
        )
    } else {
        UnixStep::Take(
            match wall {
                Some(secs) => (secs % 0x1_0000_0000) as u32,
                None => 0,
            },
        )
    }
}

/// Decides what a refresh does to the cached Unix time.
pub fn unix_step(
    initialized: bool,
    last: CoarseInstant,
    coarse: CoarseInstant,
    wall: Option<u64>,
) -> (step: UnixStep)
    ensures
        step == unix_step_for(initialized, last, coarse, wall),
{
    if initialized {
        UnixStep::Advance(unix_advance(last, coarse))
    } else {
        UnixStep::Take(
            match wall {
                Some(secs) => low_seconds(secs),
                None => 0,
            },
        )
    }
}

/// What a timestamp does to a clock that held `last`.
pub open spec fn timestamp_outcome(last: CoarseInstant, now: CoarseInstant, tolerance: u32) -> Result<
    bool,
    TimeReversal,
> {
    if last.secs + 1 < now.secs {
        Ok(true)
    } else if now.secs + tolerance < last.secs {
        Err(TimeReversal { previous: last, now })
    } else {
        Ok(false)
    }
}

/// What moving the coarse clock from `last` to `now` amounts to: `Ok(true)`
/// where it moved forward by more than a second, an error where it moved
/// backwards by more than `tolerance` seconds, `Ok(false)` otherwise.
pub fn judge_timestamp(last: CoarseInstant, now: CoarseInstant, tolerance: u32) -> (r: Result<
    bool,
    TimeReversal,
>)
    ensures
        r == timestamp_outcome(last, now, tolerance),
{
    if last.secs < now.secs && now.secs - last.secs > 1 {
        Ok(true)
    } else if now.secs < last.secs && last.secs - now.secs > tolerance {
        Err(TimeReversal { previous: last, now })
    } else {
        Ok(false)
    }
}

/// What a timestamp does to a clock: what the call returns, and the coarse
/// instant that goes into the cache, if any does.
#[derive(Clone, Copy, Debug, PartialEq, Eq)]
pub struct TimestampStep {
    pub outcome: Result<bool, TimeReversal>,
    pub cache: Option<CoarseInstant>,
}

/// What a timestamp of `now` does to a clock that held `last`. The cache
/// never moves backwards: a timestamp before `last` is left out of it,
/// whether the jump is tolerated or not.
pub open spec fn timestamp_step(last: CoarseInstant, now: CoarseInstant, tolerance: u32) -> TimestampStep {
    TimestampStep {
        outcome: timestamp_outcome(last, now, tolerance),
        cache: if now.secs >= last.secs {
            Some(now)
        } else {
            None
        },
    }
}

/// Decides what a timestamp of `now` does to a clock that held `last`.
pub fn step_timestamp(last: CoarseInstant, now: CoarseInstant, tolerance: u32) -> (step:
    TimestampStep)
    ensures
        step == timestamp_step(last, now, tolerance),
{
    TimestampStep {
        outcome: judge_timestamp(last, now, tolerance),
        cache: if now.secs >= last.secs {
            Some(now)
        } else {
            None
        },
    }
}

/// The backward jump, in seconds, that a clock tolerates unless told
/// otherwise.
pub const DEFAULT_TOLERANCE: u32 = 1;

/// A cached clock.
pub struct Clock {
    origin: std::time::Instant,
    tolerance: u32,
    initialized: AtomicBool,
    recent_coarse: AtomicCoarseInstant,
    recent_precise: AtomicInstant,
    recent_unix: AtomicU32,
}

impl Clock {
    /// The backward jump, in seconds, that this clock tolerates.
    pub closed spec fn tolerance(self) -> u32 {
        self.tolerance
    }

    /// A clock that has not read the time yet. Its precise instants count
    /// from this moment.
    pub fn new() -> (clock: Clock)
        ensures
            clock.tolerance() == DEFAULT_TOLERANCE,
    {
        Clock::with_tolerance(DEFAULT_TOLERANCE)
    }

    /// A clock that tolerates backward jumps of up to `tolerance` seconds.
    pub fn with_tolerance(tolerance: u32) -> (clock: Clock)
        ensures
            clock.tolerance() == tolerance,
    {
        Clock {
            origin: monotonic_now(),
            tolerance,
            initialized: AtomicBool::new(false),
            recent_coarse: AtomicCoarseInstant::new(CoarseInstant { secs: 0 }),
            recent_precise: AtomicInstant::new(Instant { nanos: 0 }),
            recent_unix: AtomicU32::new(0),
        }
    }

    /// Reads the time once, unless it has been read before.
    pub fn initialize(&self) {
        if !load_bool(&self.initialized) {
            self.refresh();
        }
    }

    /// The precise instant of the last refresh.
    pub fn recent_precise(&self) -> Instant {
        self.initialize();
        self.recent_precise.load()
    }

    /// The coarse instant of the last refresh. A clock that was never
    /// refreshed returns what it was made with.
    pub fn recent_coarse(&self) -> CoarseInstant {
        self.recent_coarse.load()
    }

    /// The Unix time of the last refresh, in seconds.
    pub fn recent_unix(&self) -> u32 {
        self.initialize();
        load_u32(&self.recent_unix)
    }

    /// The system time of the last refresh, to the second.
    pub fn recent_system(&self) -> (time: SystemTime)
        ensures
            exists|secs: u32| time == system_time_at(secs),
    {
        epoch_plus(self.recent_unix())
    }

    /// The calendar time of the last refresh, to the second.
    pub fn recent_utc(&self) -> DateTime {
        DateTime { unix: self.recent_unix() }
    }

    /// Reads the machine's clocks and renews the cache. The first refresh
    /// takes the Unix time from the wall clock; later ones move it on by
    /// the seconds that the monotonic clock has moved.
    pub fn refresh(&self) {
        let precise = Instant { nanos: clamp_nanos(nanos_since(&self.origin)) };
        let coarse = CoarseInstant::of(precise);
        let wall = seconds_since_epoch(&system_now());
        let initialized = load_bool(&self.initialized);
        self.recent_precise.store(precise);
        let last = self.recent_coarse.swap(coarse);
        match unix_step(initialized, last, coarse, wall) {
            UnixStep::Take(unix) => {
                store_u32(&self.recent_unix, unix);
            },
            UnixStep::Advance(delta) => {
                fetch_add_u32(&self.recent_unix, delta);
            },
        }
        store_bool(&self.initialized, true);
    }

    /// Moves the cached instants on to `timestamp` seconds and marks the
    /// clock as initialized; a timestamp before what the clock holds leaves
    /// the cache as it is. Returns `Ok(true)` where the timestamp is more
    /// than a second after what the clock held, `Ok(false)` where it is
    /// not, and an error where it lies before what the clock held by more
    /// than the clock tolerates. The Unix time is left alone.
    pub fn refresh_with_sec_timestamp(&self, timestamp: u32) -> (r: Result<bool, TimeReversal>)
        ensures
            exists|last: CoarseInstant|
                r == timestamp_outcome(last, (CoarseInstant { secs: timestamp }), self.tolerance()),
    {
        let last = self.recent_coarse.load();
        let step = step_timestamp(last, CoarseInstant { secs: timestamp }, self.tolerance);
        match step.cache {
            Some(coarse) => {
                self.recent_precise.store(instant_of_timestamp(coarse.secs));
                self.recent_coarse.store(coarse);
                store_bool(&self.initialized, true);
            },
            None => {},
        }
        assert(step.outcome == timestamp_outcome(
            last,
            (CoarseInstant { secs: timestamp }),
            self.tolerance(),
        ));
        step.outcome
    }
}

/// Refreshes the clock and returns the current instant with high precision.
pub fn now_precise(clock: &Clock) -> Instant {
    clock.refresh();
    clock.recent_precise()
}

/// Returns the current instant with reduced precision, as cached.
pub fn now_coarse(clock: &Clock) -> CoarseInstant {
    clock.recent_coarse()
}

/// Refreshes the clock and returns the current system time.
pub fn now_system(clock: &Clock) -> (time: SystemTime)
    ensures
        exists|secs: u32| time == system_time_at(secs),
{
    clock.refresh();
    clock.recent_system()
}

/// Refreshes the clock and returns the current Unix time in seconds.
pub fn now_unix(clock: &Clock) -> u32 {
    clock.refresh();
    clock.recent_unix()
}

/// Refreshes the clock and returns the current calendar time in UTC.
pub fn now_utc(clock: &Clock) -> DateTime {
    clock.refresh();
    clock.recent_utc()
}

/// Returns a recent precise instant from the cache.
pub fn recent_precise(clock: &Clock) -> Instant {
    clock.recent_precise()
}

/// Returns a recent coarse instant from the cache.
pub fn recent_coarse(clock: &Clock) -> CoarseInstant {
    clock.recent_coarse()
}

/// Returns the system time from the cache.
pub fn recent_system(clock: &Clock) -> (time: SystemTime)
    ensures
        exists|secs: u32| time == system_time_at(secs),
{
    clock.recent_system()
}

/// Returns the Unix time from the cache.
pub fn recent_unix(clock: &Clock) -> u32 {
    clock.recent_unix()
}

/// Returns the calendar time in UTC from the cache.
pub fn recent_utc(clock: &Clock) -> DateTime {
    clock.recent_utc()
}

/// Renews the cache from the machine's clocks.
pub fn refresh_clock(clock: &Clock) {
    clock.refresh()
}

/// Moves the cached instants on to `timestamp` seconds.
pub fn refresh_with_sec_timestamp(clock: &Clock, timestamp: u32) -> (r: Result<bool, TimeReversal>)
    ensures
        exists|last: CoarseInstant|
            r == timestamp_outcome(last, (CoarseInstant { secs: timestamp }), clock.tolerance()),
{
    clock.refresh_with_sec_timestamp(timestamp)
}

} // verus!

use rustcommon::clock::{
    clamp_nanos, instant_of_timestamp, judge_timestamp, low_seconds, now_coarse, now_precise,
    now_system, now_unix, now_utc, recent_coarse, recent_precise, recent_system, recent_unix,
    recent_utc, refresh_clock, refresh_with_sec_timestamp, step_timestamp, unix_advance,
    unix_step, Clock, TimeReversal, TimestampStep, UnixStep,
};
use rustcommon::instant::{
    CoarseDuration, CoarseInstant, DateTime, Duration, Instant, NANOS_PER_SEC,
};

fn spin(millis: u64) {
    let begin = std::time::Instant::now();
    while (begin.elapsed().as_millis() as u64) < millis {}
}

/// This tests the direct interface to `Instant` and `Duration`
#[test]
fn lib_basic() {
    let clock = Clock::new();
    let now = now_precise(&clock);
    spin(1000);
    let elapsed = now_precise(&clock).duration_since(now);
    assert!(elapsed.as_secs() >= 1);
    assert!(elapsed.as_nanos() >= NANOS_PER_SEC.into());
}

/// This tests the system time handling
#[test]
fn system() {
    let clock = Clock::new();
    let recent = recent_system(&clock);
    let now = std::time::SystemTime::now();
    assert!((now.duration_since(recent).unwrap()).as_secs() <= 1);
}

/// This tests the cached view of the clock
#[test]
fn clock() {
    let clock = Clock::new();
    let now = now_precise(&clock);
    spin(1000);
    let elapsed = now_precise(&clock).duration_since(now);
    assert!(elapsed.as_secs() >= 1);
    assert!(elapsed.as_nanos() >= NANOS_PER_SEC.into());

    let t0 = recent_precise(&clock);
    let t0_c = recent_precise(&clock);
    spin(1000);
    assert_eq!(recent_precise(&clock), t0);
    refresh_clock(&clock);
    let t1 = recent_precise(&clock);
    let t1_c = recent_precise(&clock);
    assert!((t1.duration_since(t0)).as_nanos() >= NANOS_PER_SEC);
    assert!((t1_c.duration_since(t0_c)).as_secs() >= 1);
}

#[test]
fn unix_time_follows_the_wall_clock() {
    let clock = Clock::new();
    let wall = std::time::SystemTime::now()
        .duration_since(std::time::SystemTime::UNIX_EPOCH)
        .unwrap()
        .as_secs();
    let unix = now_unix(&clock) as u64;
    assert!(unix >= wall && unix <= wall + 2);
    assert_eq!(recent_unix(&clock) as u64, unix);
    assert_eq!(recent_utc(&clock), DateTime::from_unix_timestamp(unix as u32));
    assert_eq!(now_utc(&clock).unix_timestamp() as u64 / 4, unix / 4);
    let system = now_system(&clock);
    let back = system
        .duration_since(std::time::SystemTime::UNIX_EPOCH)
        .unwrap()
        .as_secs();
    assert!(back >= unix && back <= unix + 2);
}

#[test]
fn coarse_clock_follows_the_precise_one() {
    let clock = Clock::new();
    assert_eq!(recent_coarse(&clock), CoarseInstant::from_secs(0));
    spin(1100);
    assert_eq!(now_coarse(&clock), CoarseInstant::from_secs(0));
    let first = now_unix(&clock);
    let precise = recent_precise(&clock);
    assert_eq!(recent_coarse(&clock), CoarseInstant::of(precise));
    assert!(recent_coarse(&clock).as_secs() >= 1);
    spin(1100);
    refresh_clock(&clock);
    assert!(recent_unix(&clock) > first);
}

#[test]
fn timestamps_move_the_cache() {
    let clock = Clock::new();
    assert_eq!(refresh_with_sec_timestamp(&clock, 5), Ok(true));
    assert_eq!(recent_coarse(&clock), CoarseInstant::from_secs(5));
    assert_eq!(clock.refresh_with_sec_timestamp(6), Ok(false));
    assert_eq!(clock.refresh_with_sec_timestamp(6), Ok(false));
    assert_eq!(recent_coarse(&clock), CoarseInstant::from_secs(6));
    assert_eq!(recent_precise(&clock), Instant::from_nanos(6_000_000_000));
    // a jump back of one second is ignored
    assert_eq!(clock.refresh_with_sec_timestamp(5), Ok(false));
    assert_eq!(recent_coarse(&clock), CoarseInstant::from_secs(6));
    assert_eq!(recent_precise(&clock), Instant::from_nanos(6_000_000_000));
    assert_eq!(clock.refresh_with_sec_timestamp(9), Ok(true));
    // a jump back of more is refused, and the cache stays
    assert_eq!(
        clock.refresh_with_sec_timestamp(7),
        Err(TimeReversal {
            previous: CoarseInstant::from_secs(9),
            now: CoarseInstant::from_secs(7)
        })
    );
    assert_eq!(recent_coarse(&clock), CoarseInstant::from_secs(9));
    assert_eq!(recent_precise(&clock), Instant::from_nanos(9_000_000_000));
    let tolerant = Clock::with_tolerance(10);
    assert_eq!(tolerant.refresh_with_sec_timestamp(20), Ok(true));
    assert_eq!(tolerant.refresh_with_sec_timestamp(10), Ok(false));
    assert_eq!(tolerant.recent_coarse(), CoarseInstant::from_secs(20));
    assert!(tolerant.refresh_with_sec_timestamp(9).is_err());
    assert_eq!(tolerant.refresh_with_sec_timestamp(100), Ok(true));
    assert!(tolerant.refresh_with_sec_timestamp(89).is_err());
    assert_eq!(tolerant.refresh_with_sec_timestamp(90), Ok(false));
    assert_eq!(tolerant.recent_coarse(), CoarseInstant::from_secs(100));
}

#[test]
fn a_timestamp_initializes_the_clock() {
    let clock = Clock::new();
    assert_eq!(clock.refresh_with_sec_timestamp(5), Ok(true));
    assert_eq!(clock.recent_precise(), Instant::from_nanos(5_000_000_000));
    assert_eq!(recent_precise(&clock), Instant::from_nanos(5_000_000_000));
    assert_eq!(recent_coarse(&clock), CoarseInstant::from_secs(5));
    let zero = Clock::new();
    assert_eq!(zero.refresh_with_sec_timestamp(0), Ok(false));
    assert_eq!(zero.recent_precise(), Instant::from_nanos(0));
}

#[test]
fn timestamp_steps() {
    let at = CoarseInstant::from_secs;
    assert_eq!(
        step_timestamp(at(3), at(3), 1),
        TimestampStep { outcome: Ok(false), cache: Some(at(3)) }
    );
    assert_eq!(
        step_timestamp(at(3), at(4), 1),
        TimestampStep { outcome: Ok(false), cache: Some(at(4)) }
    );
    assert_eq!(
        step_timestamp(at(3), at(5), 1),
        TimestampStep { outcome: Ok(true), cache: Some(at(5)) }
    );
    assert_eq!(
        step_timestamp(at(3), at(2), 1),
        TimestampStep { outcome: Ok(false), cache: None }
    );
    assert_eq!(
        step_timestamp(at(3), at(1), 1),
        TimestampStep {
            outcome: Err(TimeReversal { previous: at(3), now: at(1) }),
            cache: None
        }
    );
}

#[test]
fn timestamp_decisions() {
    let at = CoarseInstant::from_secs;
    assert_eq!(judge_timestamp(at(0), at(0), 1), Ok(false));
    assert_eq!(judge_timestamp(at(0), at(1), 1), Ok(false));
    assert_eq!(judge_timestamp(at(0), at(2), 1), Ok(true));
    assert_eq!(judge_timestamp(at(u32::MAX), at(u32::MAX), 1), Ok(false));
    assert_eq!(judge_timestamp(at(3), at(2), 1), Ok(false));
    assert_eq!(
        judge_timestamp(at(3), at(1), 1),
        Err(TimeReversal { previous: at(3), now: at(1) })
    );
    assert_eq!(judge_timestamp(at(3), at(1), 2), Ok(false));
    assert_eq!(unix_advance(at(3), at(10)), 7);
    assert_eq!(unix_advance(at(10), at(3)), 0);
    assert_eq!(unix_advance(at(3), at(3)), 0);
    assert_eq!(instant_of_timestamp(3), Instant::from_nanos(3_000_000_000));
    assert_eq!(
        instant_of_timestamp(u32::MAX),
        Instant::from_nanos(4_294_967_295_000_000_000)
    );
    assert_eq!(low_seconds(7), 7);
    assert_eq!(low_seconds(0x1_0000_0005), 5);
    assert_eq!(clamp_nanos(12), 12);
    assert_eq!(clamp_nanos(u128::MAX), u64::MAX);
}

#[test]
fn durations_and_instants() {
    assert_eq!(Duration::new(1, 0), Duration::from_millis(1000));
    assert_eq!(Duration::new(2, 5).as_nanos(), 2_000_000_005);
    assert_eq!(Duration::new(2, 5).as_secs(), 2);
    assert_eq!(Duration::new(2, 5).subsec_nanos(), 5);
    assert_eq!(Duration::from_micros(3).as_nanos(), 3_000);
    assert_eq!(Duration::from_millis(1500).as_millis(), 1500);
    assert_eq!(Duration::from_secs(u64::MAX).as_nanos(), u64::MAX);
    assert_eq!(Duration::new(u64::MAX, 1).as_nanos(), u64::MAX);
    let a = Instant::from_nanos(10);
    let b = Instant::from_nanos(25);
    assert!(a < b);
    assert_eq!(b.duration_since(a), Duration::from_nanos(15));
    assert_eq!(a.duration_since(b), Duration::from_nanos(0));
    assert_eq!(b.checked_duration_since(a), Some(Duration::from_nanos(15)));
    assert_eq!(a.checked_duration_since(b), None);
    assert_eq!(a.saturating_add(Duration::from_nanos(5)).as_nanos(), 15);
    assert_eq!(a.saturating_add(Duration::from_nanos(u64::MAX)).as_nanos(), u64::MAX);
    assert_eq!(a.checked_add(Duration::from_nanos(5)), Some(Instant::from_nanos(15)));
    assert_eq!(a.checked_add(Duration::from_nanos(u64::MAX)), None);
    assert_eq!(CoarseInstant::of(Instant::from_nanos(2_999_999_999)).as_secs(), 2);
    assert_eq!(
        CoarseInstant::from_secs(9).duration_since(CoarseInstant::from_secs(4)),
        CoarseDuration::from_secs(5)
    );
    assert_eq!(
        CoarseInstant::from_secs(4).duration_since(CoarseInstant::from_secs(9)).as_secs(),
        0
    );
}

#[test]
fn unix_steps() {
    let at = CoarseInstant::from_secs;
    // the first refresh takes the wall clock
    assert_eq!(unix_step(false, at(0), at(7), Some(1_700_000_000)), UnixStep::Take(1_700_000_000));
    assert_eq!(unix_step(false, at(9), at(7), Some(5)), UnixStep::Take(5));
    assert_eq!(unix_step(false, at(0), at(7), Some(0x1_0000_0003)), UnixStep::Take(3));
    assert_eq!(unix_step(false, at(0), at(7), None), UnixStep::Take(0));
    // later ones move on by what the coarse clock moved, and never back
    assert_eq!(unix_step(true, at(3), at(7), Some(1_700_000_000)), UnixStep::Advance(4));
    assert_eq!(unix_step(true, at(7), at(7), Some(1_700_000_000)), UnixStep::Advance(0));
    assert_eq!(unix_step(true, at(9), at(7), None), UnixStep::Advance(0));
    assert_eq!(unix_step(true, at(0), at(u32::MAX), None), UnixStep::Advance(u32::MAX));
}

#[test]
fn unix_time_moves_with_the_coarse_clock() {
    let clock = Clock::new();
    let first = now_unix(&clock);
    let coarse = recent_coarse(&clock);
    spin(2100);
    refresh_clock(&clock);
    let moved = recent_coarse(&clock).duration_since(coarse).as_secs();
    assert!(moved >= 2);
    assert_eq!(recent_unix(&clock), first + moved);
}

use rustcommon::instant::{Duration, Instant};
use rustcommon::ratelimiter::{
    is_due, next_interval, rate_of_tick, refill_amount, tick_interval, token_of, Ratelimiter,
    Refill, WouldBlock,
};

#[test]
fn refill_try_from() {
    assert_eq!(Refill::try_from(0), Ok(Refill::Smooth));
    assert_eq!(Refill::try_from(1), Ok(Refill::Uniform));
    assert_eq!(Refill::try_from(2), Ok(Refill::Normal));
    assert_eq!(Refill::try_from(3), Err(()));
    assert_eq!(Refill::try_from(usize::MAX), Err(()));
    assert_eq!(Refill::Normal.index(), 2);
}

#[test]
fn tick_and_rate_formulas() {
    assert_eq!(tick_interval(1, 1), Duration::from_secs(1));
    assert_eq!(tick_interval(100, 1), Duration::from_millis(10));
    assert_eq!(tick_interval(100, 10), Duration::from_millis(100));
    assert_eq!(tick_interval(3, 1), Duration::from_nanos(333_333_333));
    assert_eq!(tick_interval(7, 2), Duration::from_nanos(333_333_333));
    assert_eq!(rate_of_tick(1, Duration::from_secs(1)), 1);
    assert_eq!(rate_of_tick(10, Duration::from_millis(100)), 100);
    assert_eq!(rate_of_tick(1, Duration::from_nanos(333_333_333)), 3);
    assert_eq!(rate_of_tick(1, Duration::from_nanos(0)), u64::MAX);
    assert_eq!(rate_of_tick(u64::MAX, Duration::from_nanos(1)), u64::MAX);
}

#[test]
fn refill_never_overfills() {
    assert_eq!(refill_amount(0, 10, 3), 3);
    assert_eq!(refill_amount(6, 10, 3), 3);
    assert_eq!(refill_amount(7, 10, 3), 3);
    assert_eq!(refill_amount(8, 10, 3), 2);
    assert_eq!(refill_amount(10, 10, 3), 0);
    assert_eq!(refill_amount(12, 10, 3), 0);
    assert_eq!(refill_amount(u64::MAX - 1, u64::MAX, u64::MAX), 1);
}

#[test]
fn interval_by_strategy() {
    let tick = Duration::from_nanos(100);
    let drawn = Duration::from_nanos(137);
    assert_eq!(next_interval(Ok(Refill::Smooth), tick, drawn), tick);
    assert_eq!(next_interval(Ok(Refill::Uniform), tick, drawn), drawn);
    assert_eq!(next_interval(Ok(Refill::Normal), tick, drawn), drawn);
    assert_eq!(next_interval(Err(()), tick, drawn), tick);
    assert!(is_due(Instant::from_nanos(5), Instant::from_nanos(5)));
    assert!(!is_due(Instant::from_nanos(4), Instant::from_nanos(5)));
}

#[test]
fn bucket_fills_and_drains() {
    let start = Instant::from_nanos(1_000);
    let none = Duration::from_nanos(0);
    // two tokens at most, one per tick, ten ticks per second
    let limiter = Ratelimiter::new(2, 1, 10, start);
    assert_eq!(limiter.rate(), 10);
    // before the first tick is due the bucket is empty
    assert!(!limiter.due(Instant::from_nanos(999)));
    assert!(limiter.due(start));
    assert_eq!(limiter.try_wait(Instant::from_nanos(999), none), Err(WouldBlock));
    // the first tick adds one token, which is taken at once
    assert_eq!(limiter.try_wait(start, none), Ok(()));
    assert_eq!(limiter.try_wait(start, none), Err(WouldBlock));
    // one tick later there is one more
    let tick = Duration::from_millis(100);
    let t1 = start.saturating_add(tick);
    assert_eq!(limiter.try_wait(t1, none), Ok(()));
    assert_eq!(limiter.try_wait(t1, none), Err(WouldBlock));
    // ticks that nobody used fill the bucket up to its capacity only
    let late = start.saturating_add(Duration::from_secs(10));
    limiter.tick(late, none);
    limiter.tick(late, none);
    limiter.tick(late, none);
    limiter.tick(late, none);
    assert_eq!(limiter.try_wait(Instant::from_nanos(0), none), Ok(()));
    assert_eq!(limiter.try_wait(Instant::from_nanos(0), none), Ok(()));
    assert_eq!(limiter.try_wait(Instant::from_nanos(0), none), Err(WouldBlock));
}

#[test]
fn drawn_intervals_are_used() {
    let start = Instant::from_nanos(0);
    let limiter = Ratelimiter::new(1, 1, 1, start);
    limiter.set_strategy(Refill::Uniform);
    let drawn = Duration::from_nanos(50);
    assert_eq!(limiter.try_wait(start, drawn), Ok(()));
    // the next tick was put fifty nanoseconds later, not a second
    assert_eq!(limiter.try_wait(Instant::from_nanos(49), drawn), Err(WouldBlock));
    assert_eq!(limiter.try_wait(Instant::from_nanos(50), drawn), Ok(()));
    limiter.set_strategy(Refill::Smooth);
    assert_eq!(limiter.try_wait(Instant::from_nanos(100), drawn), Ok(()));
    assert_eq!(limiter.try_wait(Instant::from_nanos(200), drawn), Err(WouldBlock));
    assert_eq!(
        limiter.try_wait(Instant::from_nanos(1_000_000_100), drawn),
        Ok(())
    );
}

#[test]
fn rate_can_be_changed() {
    let limiter = Ratelimiter::new(1, 2, 100, Instant::from_nanos(0));
    assert_eq!(limiter.rate(), 100);
    limiter.set_rate(1000);
    assert_eq!(limiter.rate(), 1000);
    limiter.set_rate(3);
    assert_eq!(limiter.rate(), 2);
}

#[test]
fn token_decisions() {
    assert_eq!(token_of(0), Err(WouldBlock));
    assert_eq!(token_of(1), Ok(()));
    assert_eq!(token_of(u64::MAX), Ok(()));
}

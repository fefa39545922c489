use rustcommon::channel::{
    counter_update, gauge_update, rate_of, reading_of, Accepted, Channel,
};
use rustcommon::error::{HeatmapError, MetricsError};
use rustcommon::instant::{Duration, Instant};
use rustcommon::rank::Percentile;
use rustcommon::statistic::{ApproxOutput, Output, Source, Statistic, Summary};

fn alpha() -> Statistic {
    Statistic::new(
        "alpha",
        Source::Counter,
        Some(Summary::heatmap(
            10_000_000,
            4,
            Duration::from_secs(4),
            Duration::from_secs(1),
        )),
    )
}

fn permille(p: u64) -> Percentile {
    Percentile::from_millionths(p * 100_000)
}

#[test]
fn basic() {
    let created = Instant::from_nanos(1_000);
    let channel = Channel::new(&alpha(), created);
    assert!(channel.reading().is_err());
    channel.record_counter(Instant::from_nanos(2_000), 0);
    assert_eq!(channel.reading(), Ok(0));
    let now = Instant::from_nanos(3_000);
    channel.record_counter(now, 0);
    assert_eq!(channel.reading(), Ok(0));
    assert_eq!(channel.percentile(now, permille(0)), Ok(0));
    let later = now.saturating_add(Duration::from_millis(1000));
    channel.record_counter(later, 1);
    assert_eq!(channel.reading(), Ok(1));
    assert_eq!(channel.percentile(later, permille(1000)), Ok(1));
}

#[test]
fn outputs() {
    let created = Instant::from_nanos(1_000);
    let mut channel = Channel::new(&alpha(), created);
    assert!(channel.outputs().is_empty());
    channel.add_output(Output::Reading);
    channel.record_counter(Instant::from_nanos(2_000), 1);
    assert_eq!(channel.outputs().len(), 1);
    assert_eq!(channel.reading(), Ok(1));
}

#[test]
fn absolute_counter() {
    let created = Instant::from_nanos(1_000);
    let channel = Channel::new(&alpha(), created);
    let start = Instant::from_nanos(2_000);
    assert!(channel.reading().is_err());
    channel.record_counter(start, 0);
    assert_eq!(channel.reading(), Ok(0));
    let second = start.saturating_add(Duration::from_millis(1000));
    channel.record_counter(second, 1000000);
    assert_eq!(channel.reading(), Ok(1000000));
    assert_eq!(channel.percentile(second, permille(999)), Ok(1000000));
    let third = start.saturating_add(Duration::from_millis(2000));
    channel.record_counter(third, 3000000);
    assert_eq!(channel.reading(), Ok(3000000));
    assert_eq!(channel.percentile(third, permille(999)), Ok(2000000));
    channel.record_counter(start, 42);
    assert_ne!(channel.reading(), Ok(42));
}

#[test]
fn increment_counter() {
    let channel = Channel::new(&alpha(), Instant::from_nanos(1_000));
    assert!(channel.reading().is_err());
    channel.increment_counter(1);
    assert_eq!(channel.reading(), Ok(1));
    channel.increment_counter(0);
    assert_eq!(channel.reading(), Ok(1));
    channel.increment_counter(10);
    assert_eq!(channel.reading(), Ok(11));
}

#[test]
fn counter_scenario() {
    let channel = Channel::new(&alpha(), Instant::from_nanos(0));
    let t0 = Instant::from_nanos(500);
    channel.record_counter(t0, 0);
    assert_eq!(channel.reading(), Ok(0));
    let t1 = t0.saturating_add(Duration::from_millis(1000));
    channel.record_counter(t1, 1);
    assert_eq!(channel.reading(), Ok(1));
    assert_eq!(channel.percentile(t1, permille(1000)), Ok(1));
    // an older and an equal timestamp change nothing
    channel.record_counter(t0, 7);
    assert_eq!(channel.reading(), Ok(1));
    channel.record_counter(t1, 9);
    assert_eq!(channel.reading(), Ok(1));
    assert_eq!(channel.percentile(t1, permille(1000)), Ok(1));
}

#[test]
fn gauge_scenario() {
    let gauge = Statistic::new(
        "beta",
        Source::Gauge,
        Some(Summary::heatmap(1000, 2, Duration::from_secs(10), Duration::from_secs(1))),
    );
    let channel = Channel::new(&gauge, Instant::from_nanos(10));
    assert_eq!(channel.reading(), Err(MetricsError::Empty));
    assert_eq!(
        channel.percentile(Instant::from_nanos(10), permille(500)),
        Err(MetricsError::Empty)
    );
    channel.record_gauge(Instant::from_nanos(10), 5);
    assert_eq!(channel.reading(), Err(MetricsError::Empty));
    channel.record_gauge(Instant::from_nanos(11), 5);
    assert_eq!(channel.reading(), Ok(5));
    channel.record_gauge(Instant::from_nanos(12), 3);
    assert_eq!(channel.reading(), Ok(3));
    channel.record_gauge(Instant::from_nanos(12), 8);
    assert_eq!(channel.reading(), Ok(3));
    let now = Instant::from_nanos(12);
    assert_eq!(channel.percentile(now, permille(0)), Ok(3));
    assert_eq!(channel.percentile(now, permille(1000)), Ok(5));
    assert_eq!(channel.statistic().name(), "beta");
    assert_eq!(channel.statistic().source(), Source::Gauge);
}

#[test]
fn channel_without_summary() {
    let plain = Statistic::new("gamma", Source::Counter, None);
    let mut channel = Channel::new(&plain, Instant::from_nanos(0));
    let now = Instant::from_nanos(5);
    assert_eq!(channel.percentile(now, permille(500)), Err(MetricsError::NoSummary));
    assert_eq!(channel.record_bucket(now, 1, 1), Err(MetricsError::NoSummary));
    channel.record_counter(now, 4);
    channel.record_counter(Instant::from_nanos(6), 9);
    assert_eq!(channel.reading(), Ok(9));
    let summary = Summary::heatmap(1000, 2, Duration::from_secs(10), Duration::from_secs(1));
    channel.add_summary(summary, now);
    assert_eq!(channel.percentile(now, permille(500)), Err(MetricsError::Empty));
    assert_eq!(channel.record_bucket(now, 7, 2), Ok(()));
    assert_eq!(channel.percentile(now, permille(500)), Ok(7));
    // a second summary is not taken
    channel.add_summary(summary, now);
    assert_eq!(channel.percentile(now, permille(500)), Ok(7));
    // but one that is set replaces the first
    channel.set_summary(summary, now);
    assert_eq!(channel.percentile(now, permille(500)), Err(MetricsError::Empty));
}

#[test]
fn output_set() {
    let mut channel = Channel::new(&alpha(), Instant::from_nanos(0));
    let p99 = Output::Percentile(Percentile::from_percent(99));
    channel.add_output(Output::Reading);
    channel.add_output(p99);
    channel.add_output(p99);
    let mut outputs = channel.outputs();
    outputs.sort_by_key(|o| o.code());
    assert_eq!(
        outputs,
        vec![ApproxOutput::Reading, ApproxOutput::Percentile(99_000_000)]
    );
    channel.remove_output(Output::Reading);
    assert_eq!(channel.outputs(), vec![ApproxOutput::Percentile(99_000_000)]);
    channel.remove_output(Output::Reading);
    channel.remove_output(p99);
    assert!(channel.outputs().is_empty());
}

#[test]
fn output_codes() {
    assert_eq!(ApproxOutput::Reading.code(), 0);
    assert_eq!(ApproxOutput::Percentile(0).code(), 1);
    assert_eq!(ApproxOutput::Percentile(u64::MAX).code(), u64::MAX as u128 + 1);
    assert_eq!(ApproxOutput::from_code(0), Some(ApproxOutput::Reading));
    assert_eq!(ApproxOutput::from_code(51), Some(ApproxOutput::Percentile(50)));
    assert_eq!(ApproxOutput::from_code(u64::MAX as u128 + 2), None);
    let p = Output::Percentile(Percentile::from_millionths(12));
    assert_eq!(ApproxOutput::from_output(p), ApproxOutput::Percentile(12));
    assert_eq!(ApproxOutput::from_output(p).to_output(), p);
    assert_eq!(ApproxOutput::Reading.to_output(), Output::Reading);
}

#[test]
fn rate_formula() {
    assert_eq!(rate_of(1, Duration::from_secs(1)), 1);
    assert_eq!(rate_of(0, Duration::from_secs(1)), 0);
    assert_eq!(rate_of(1, Duration::from_secs(2)), 1);
    assert_eq!(rate_of(3, Duration::from_secs(2)), 2);
    assert_eq!(rate_of(1, Duration::from_millis(100)), 10);
    assert_eq!(rate_of(1_000_000, Duration::from_millis(1000)), 1_000_000);
    assert_eq!(rate_of(7, Duration::from_nanos(3)), 2_333_333_334);
    assert_eq!(rate_of(u64::MAX, Duration::from_nanos(1)), u64::MAX);
}

#[test]
fn counter_decisions() {
    let t = Instant::from_nanos;
    assert_eq!(counter_update(true, t(5), 0, true, t(5), 9), None);
    assert_eq!(counter_update(false, t(5), 0, true, t(4), 9), None);
    assert_eq!(
        counter_update(true, t(5), 0, true, t(6), 9),
        Some(Accepted { refreshed: t(6), reading: 9, sample: None })
    );
    assert_eq!(
        counter_update(false, t(5), 3, false, t(6), 9),
        Some(Accepted { refreshed: t(6), reading: 9, sample: None })
    );
    assert_eq!(
        counter_update(false, t(0), 3, true, t(2_000_000_000), 9),
        Some(Accepted { refreshed: t(2_000_000_000), reading: 9, sample: Some(3) })
    );
    // a counter that wrapped around
    assert_eq!(
        counter_update(false, t(0), u64::MAX, true, t(1_000_000_000), 4),
        Some(Accepted { refreshed: t(1_000_000_000), reading: 4, sample: Some(5) })
    );
}

#[test]
fn gauge_decisions() {
    let t = Instant::from_nanos;
    assert_eq!(gauge_update(t(5), true, t(5), 8), None);
    assert_eq!(gauge_update(t(5), true, t(4), 8), None);
    assert_eq!(
        gauge_update(t(5), true, t(6), 8),
        Some(Accepted { refreshed: t(6), reading: 8, sample: Some(8) })
    );
    assert_eq!(
        gauge_update(t(5), false, t(6), 8),
        Some(Accepted { refreshed: t(6), reading: 8, sample: None })
    );
}

#[test]
fn older_records_are_ignored_without_summary() {
    let plain = Statistic::new("delta", Source::Counter, None);
    let channel = Channel::new(&plain, Instant::from_nanos(0));
    channel.record_counter(Instant::from_nanos(10), 1);
    channel.record_counter(Instant::from_nanos(30), 2);
    channel.record_counter(Instant::from_nanos(20), 3);
    assert_eq!(channel.reading(), Ok(2));
    channel.record_counter(Instant::from_nanos(30), 4);
    assert_eq!(channel.reading(), Ok(2));
    channel.record_counter(Instant::from_nanos(31), 5);
    assert_eq!(channel.reading(), Ok(5));
}

#[test]
fn outputs_come_once_each() {
    let mut channel = Channel::new(&alpha(), Instant::from_nanos(0));
    for round in 0..3 {
        for whole in 0..20u8 {
            channel.add_output(Output::Percentile(Percentile::from_percent(whole)));
        }
        channel.add_output(Output::Reading);
        assert_eq!(channel.outputs().len(), 21, "round {}", round);
    }
    let mut codes: Vec<u128> = channel.outputs().iter().map(|o| o.code()).collect();
    codes.sort();
    codes.dedup();
    assert_eq!(codes.len(), 21);
}

#[test]
fn error_conversion() {
    assert_eq!(MetricsError::from_heatmap(HeatmapError::Empty), MetricsError::Empty);
}

#[test]
fn a_bucket_before_creation_is_not_recorded() {
    let created = Instant::from_nanos(1_000_000_000);
    let channel = Channel::new(&alpha(), created);
    assert_eq!(channel.record_bucket(Instant::from_nanos(999_999_999), 7, 3), Ok(()));
    assert_eq!(channel.percentile(created, permille(500)), Err(MetricsError::Empty));
    assert_eq!(channel.record_bucket(created, 7, 3), Ok(()));
    assert_eq!(channel.percentile(created, permille(500)), Ok(7));
}

#[test]
fn reading_decisions() {
    assert_eq!(reading_of(true, 0), Err(MetricsError::Empty));
    assert_eq!(reading_of(true, 7), Err(MetricsError::Empty));
    assert_eq!(reading_of(false, 0), Ok(0));
    assert_eq!(reading_of(false, 7), Ok(7));
}

use rustcommon::atomic_heatmap::{AtomicHeatmap, AtomicWindow};
use rustcommon::atomics::{adjusted, saturating_less, saturating_more};
use rustcommon::ring::percentile_of_ring;
use rustcommon::bucket::BucketScheme;
use rustcommon::error::HeatmapError;
use rustcommon::heatmap::{generation_of, is_live, landing, slot_for, Heatmap, Landing};
use rustcommon::instant::{Duration, Instant};
use rustcommon::rank::{find_percentile_bucket, rank_of, sum_counts, Percentile};
use rustcommon::window::Window;

fn at_millis(start: Instant, millis: u64) -> Instant {
    start.saturating_add(Duration::from_millis(millis))
}

#[test]
fn age_out() {
    let start = Instant::from_nanos(5_000_000_000);
    let zero = Percentile::from_percent(0);

    let mut heatmap =
        Heatmap::new(1_000_000, 2, Duration::new(1, 0), Duration::from_millis(1), start);
    assert_eq!(heatmap.percentile(start, zero), Err(HeatmapError::Empty));
    heatmap.increment(start, 1, 1);
    assert_eq!(heatmap.percentile(start, zero), Ok(1));
    assert_eq!(heatmap.percentile(at_millis(start, 100), zero), Ok(1));
    assert_eq!(
        heatmap.percentile(at_millis(start, 2100), zero),
        Err(HeatmapError::Empty)
    );

    let heatmap =
        AtomicHeatmap::new(1_000_000, 2, Duration::new(1, 0), Duration::from_millis(1), start);
    assert_eq!(heatmap.percentile(start, zero), Err(HeatmapError::Empty));
    heatmap.increment(start, 1, 1);
    assert_eq!(heatmap.percentile(start, zero), Ok(1));
    assert_eq!(heatmap.percentile(at_millis(start, 100), zero), Ok(1));
    assert_eq!(
        heatmap.percentile(at_millis(start, 2100), zero),
        Err(HeatmapError::Empty)
    );
}

#[test]
fn bucket_small_values_are_exact() {
    let scheme = BucketScheme::new(1_000_000, 2);
    for v in 0..200u64 {
        let i = scheme.bucket_index(v);
        assert_eq!(i as u64, v);
        assert_eq!(scheme.bucket_value(i), v);
    }
}

#[test]
fn bucket_index_formula() {
    let scheme = BucketScheme::new(1_000_000, 2);
    // 200 and 201 share the first bucket of width two
    assert_eq!(scheme.bucket_index(200), 200);
    assert_eq!(scheme.bucket_index(201), 200);
    assert_eq!(scheme.bucket_index(202), 201);
    assert_eq!(scheme.bucket_value(200), 200);
    assert_eq!(scheme.bucket_value(201), 202);
    // 400..800 has width four
    assert_eq!(scheme.bucket_index(400), 300);
    assert_eq!(scheme.bucket_index(403), 300);
    assert_eq!(scheme.bucket_index(404), 301);
    assert_eq!(scheme.bucket_value(301), 404);
    // one million: thirteen halvings leave 122
    assert_eq!(scheme.bucket_index(1_000_000), 1422);
    assert_eq!(scheme.bucket_value(1422), 999_424);
    assert_eq!(scheme.buckets(), 1423);
}

#[test]
fn bucket_saturates_above_max() {
    let scheme = BucketScheme::new(1_000_000, 2);
    let top = scheme.bucket_index(1_000_000);
    assert_eq!(scheme.bucket_index(1_000_001), top);
    assert_eq!(scheme.bucket_index(u64::MAX), top);
    assert_eq!(top + 1, scheme.buckets());
    assert!(scheme.bucket_value(top) <= 1_000_000);
}

#[test]
fn bucket_index_is_monotone_and_close() {
    let scheme = BucketScheme::new(10_000_000, 3);
    let mut last = 0usize;
    let mut v = 0u64;
    while v <= 10_000_000 {
        let i = scheme.bucket_index(v);
        assert!(i >= last);
        last = i;
        let low = scheme.bucket_value(i);
        assert!(low <= v);
        assert!((v - low) * 1000 <= v);
        assert_eq!(scheme.bucket_index(low), i);
        v = v + 1 + v / 7;
    }
}

#[test]
fn bucket_high_precision_is_identity() {
    let scheme = BucketScheme::new(1000, 19);
    assert_eq!(scheme.buckets(), 1001);
    assert_eq!(scheme.bucket_index(999), 999);
    assert_eq!(scheme.bucket_value(999), 999);
    assert_eq!(scheme.get_max_value(), 1000);
    assert_eq!(scheme.get_precision(), 19);
}

#[test]
fn bucket_fits() {
    assert!(BucketScheme::fits(1_000_000, 2));
    assert!(!BucketScheme::fits(u64::MAX, 19));
    assert!(BucketScheme::fits(u64::MAX, 2));
}

#[test]
fn rank_formula() {
    let half = Percentile::from_percent(50);
    assert_eq!(rank_of(half, 1), 1);
    assert_eq!(rank_of(half, 2), 1);
    assert_eq!(rank_of(half, 3), 2);
    assert_eq!(rank_of(half, 10), 5);
    assert_eq!(rank_of(Percentile::from_percent(0), 10), 1);
    assert_eq!(rank_of(Percentile::from_percent(100), 10), 10);
    assert_eq!(rank_of(Percentile::from_percent(200), 10), 10);
    assert_eq!(rank_of(Percentile::from_millionths(99_900_000), 1000), 999);
    assert_eq!(rank_of(Percentile::from_millionths(99_900_000), 1001), 1000);
    assert_eq!(rank_of(Percentile::from_millionths(99_900_000), 2), 2);
    let huge: u128 = u128::MAX;
    assert_eq!(rank_of(Percentile::from_percent(100), huge), huge);
    assert_eq!(rank_of(half, huge), huge / 2 + 1);
}

#[test]
fn percentile_bucket_walk() {
    let counts: Vec<u128> = vec![0, 3, 0, 1, 6];
    assert_eq!(sum_counts(&counts), 10);
    assert_eq!(find_percentile_bucket(&counts, Percentile::from_percent(0)), Some(1));
    assert_eq!(find_percentile_bucket(&counts, Percentile::from_percent(30)), Some(1));
    assert_eq!(find_percentile_bucket(&counts, Percentile::from_percent(31)), Some(3));
    assert_eq!(find_percentile_bucket(&counts, Percentile::from_percent(40)), Some(3));
    assert_eq!(find_percentile_bucket(&counts, Percentile::from_percent(41)), Some(4));
    assert_eq!(find_percentile_bucket(&counts, Percentile::from_percent(100)), Some(4));
    let empty: Vec<u128> = vec![0, 0, 0];
    assert_eq!(find_percentile_bucket(&empty, Percentile::from_percent(50)), None);
    let none: Vec<u128> = Vec::new();
    assert_eq!(find_percentile_bucket(&none, Percentile::from_percent(50)), None);
}

#[test]
fn window_operations() {
    let scheme = BucketScheme::new(1000, 1);
    let mut window = Window::new(scheme, 7);
    assert_eq!(window.generation(), 7);
    assert_eq!(window.total(), 0);
    assert_eq!(
        window.percentile_within(Percentile::from_percent(50)),
        Err(HeatmapError::Empty)
    );
    window.insert(3, 2);
    window.record(5, 1);
    window.record(900, 1);
    assert_eq!(window.count_at(3), 2);
    assert_eq!(window.count_at(5), 1);
    assert_eq!(window.total(), 4);
    assert_eq!(window.percentile_within(Percentile::from_percent(0)), Ok(3));
    assert_eq!(window.percentile_within(Percentile::from_percent(50)), Ok(3));
    assert_eq!(window.percentile_within(Percentile::from_percent(75)), Ok(5));
    assert_eq!(window.percentile_within(Percentile::from_percent(100)), Ok(896));
    window.insert(3, u64::MAX);
    assert_eq!(window.count_at(3), u64::MAX);
    window.set_generation(9);
    assert_eq!(window.generation(), 9);
    assert_eq!(window.count_at(5), 1);
    window.clear();
    assert_eq!(window.generation(), 9);
    assert_eq!(window.total(), 0);
    assert_eq!(window.buckets(), scheme.buckets());
}

#[test]
fn ring_arithmetic() {
    let created = Instant::from_nanos(1_000);
    let resolution = Duration::from_nanos(10);
    assert_eq!(generation_of(created, resolution, Instant::from_nanos(999)), 0);
    assert_eq!(generation_of(created, resolution, Instant::from_nanos(1_000)), 0);
    assert_eq!(generation_of(created, resolution, Instant::from_nanos(1_009)), 0);
    assert_eq!(generation_of(created, resolution, Instant::from_nanos(1_010)), 1);
    assert_eq!(generation_of(created, resolution, Instant::from_nanos(1_255)), 25);
    assert_eq!(slot_for(25, 4), 1);
    assert_eq!(slot_for(3, 4), 3);
    assert!(is_live(5, 5, 4));
    assert!(is_live(2, 5, 4));
    assert!(!is_live(1, 5, 4));
    assert!(is_live(9, 5, 4));
}

#[test]
fn first_sample_is_the_answer() {
    let start = Instant::from_nanos(0);
    for p in [0u8, 1, 50, 99, 100] {
        let mut heatmap =
            Heatmap::new(1_000_000, 2, Duration::from_secs(1), Duration::from_millis(10), start);
        heatmap.increment(at_millis(start, 5), 12_345, 1);
        // 12345 lies in the range of width 64
        assert_eq!(
            heatmap.percentile(at_millis(start, 5), Percentile::from_percent(p)),
            Ok(12_288)
        );
    }
}

#[test]
fn answers_never_exceed_the_largest_sample() {
    let start = Instant::from_nanos(77);
    let mut heatmap =
        Heatmap::new(100_000, 2, Duration::from_secs(1), Duration::from_millis(100), start);
    let samples = [(300u64, 17u64), (10, 99_999), (650, 4_000), (20, 250), (999, 31)];
    for (millis, value) in samples {
        heatmap.increment(at_millis(start, millis), value, 2);
    }
    for p in 0..=100u8 {
        for millis in [0u64, 500, 999, 1500, 1900, 2500] {
            match heatmap.percentile(at_millis(start, millis), Percentile::from_percent(p)) {
                Ok(v) => assert!(v <= 99_999),
                Err(e) => assert_eq!(e, HeatmapError::Empty),
            }
        }
    }
    assert_eq!(
        heatmap.percentile(at_millis(start, 999), Percentile::from_percent(100)),
        Ok(99_840)
    );
}

#[test]
fn samples_before_creation_are_ignored() {
    let start = Instant::from_nanos(1_000_000);
    let mut heatmap =
        Heatmap::new(1000, 2, Duration::from_secs(1), Duration::from_millis(100), start);
    heatmap.increment(Instant::from_nanos(999_999), 5, 1);
    assert_eq!(
        heatmap.percentile(start, Percentile::from_percent(50)),
        Err(HeatmapError::Empty)
    );
    let atomic =
        AtomicHeatmap::new(1000, 2, Duration::from_secs(1), Duration::from_millis(100), start);
    atomic.increment(Instant::from_nanos(999_999), 5, 1);
    assert_eq!(
        atomic.percentile(start, Percentile::from_percent(50)),
        Err(HeatmapError::Empty)
    );
}

#[test]
fn samples_age_out_after_the_span() {
    let start = Instant::from_nanos(0);
    let mut heatmap =
        Heatmap::new(1000, 2, Duration::from_secs(1), Duration::from_millis(100), start);
    heatmap.increment(at_millis(start, 250), 5, 1);
    heatmap.increment(at_millis(start, 730), 9, 1);
    let half = Percentile::from_percent(100);
    // the slot of the second sample is still within the ring
    assert_eq!(heatmap.percentile(at_millis(start, 1250), half), Ok(9));
    assert_eq!(heatmap.percentile(at_millis(start, 1699), half), Ok(9));
    // a span after the last sample nothing is left
    assert_eq!(heatmap.percentile(at_millis(start, 1730), half), Err(HeatmapError::Empty));
    assert_eq!(heatmap.percentile(at_millis(start, 1831), half), Err(HeatmapError::Empty));
    assert_eq!(heatmap.ring(), 10);
}

#[test]
fn samples_stay_visible_within_the_span() {
    let start = Instant::from_nanos(0);
    let mut heatmap =
        Heatmap::new(1000, 2, Duration::from_secs(1), Duration::from_millis(100), start);
    heatmap.increment(at_millis(start, 250), 5, 3);
    for millis in [250u64, 300, 900, 1100, 1199] {
        heatmap.increment(at_millis(start, millis), 700, 1);
        assert_eq!(
            heatmap.percentile(at_millis(start, millis), Percentile::from_percent(0)),
            Ok(5)
        );
    }
    // the generation of the query is a whole ring ahead
    assert_eq!(
        heatmap.percentile(at_millis(start, 1200), Percentile::from_percent(0)),
        Ok(700)
    );
}

#[test]
fn a_slot_is_reset_when_its_generation_changes() {
    let start = Instant::from_nanos(0);
    let mut heatmap =
        Heatmap::new(1000, 2, Duration::from_secs(1), Duration::from_millis(100), start);
    heatmap.increment(at_millis(start, 50), 5, 1);
    // one ring later the same slot is taken over
    heatmap.increment(at_millis(start, 1050), 9, 1);
    assert_eq!(
        heatmap.percentile(at_millis(start, 1050), Percentile::from_percent(0)),
        Ok(9)
    );
    let atomic =
        AtomicHeatmap::new(1000, 2, Duration::from_secs(1), Duration::from_millis(100), start);
    atomic.increment(at_millis(start, 50), 5, 1);
    atomic.increment(at_millis(start, 1050), 9, 1);
    assert_eq!(
        atomic.percentile(at_millis(start, 1050), Percentile::from_percent(0)),
        Ok(9)
    );
}

#[test]
fn counts_add_up_without_rotation() {
    let start = Instant::from_nanos(0);
    let atomic =
        AtomicHeatmap::new(1000, 2, Duration::from_secs(1), Duration::from_millis(100), start);
    let mut plain =
        Heatmap::new(1000, 2, Duration::from_secs(1), Duration::from_millis(100), start);
    // four writers, two hundred and fifty samples each, taking turns
    for round in 0..250u64 {
        for writer in 0..4u64 {
            let time = at_millis(start, (round * 4 + writer) % 1000);
            atomic.increment(time, writer * 10, 1);
            plain.increment(time, writer * 10, 1);
        }
    }
    let end = at_millis(start, 999);
    // a thousand samples: a quarter each of 0, 10, 20 and 30
    for (millionths, value) in [(25_000_000u64, 0u64), (25_000_001, 10), (50_000_000, 10),
        (75_000_000, 20), (75_000_001, 30), (100_000_000, 30)] {
        let p = Percentile::from_millionths(millionths);
        assert_eq!(atomic.percentile(end, p), Ok(value));
        assert_eq!(plain.percentile(end, p), Ok(value));
    }
}

#[test]
fn parameters_are_checked() {
    let second = Duration::from_secs(1);
    let milli = Duration::from_millis(1);
    assert!(Heatmap::accepts(1_000_000, 2, second, milli));
    assert!(Heatmap::accepts(1_000_000, 2, second, second));
    assert!(!Heatmap::accepts(1_000_000, 2, second, Duration::from_nanos(0)));
    assert!(!Heatmap::accepts(1_000_000, 2, Duration::from_nanos(0), milli));
    assert!(!Heatmap::accepts(1_000_000, 2, milli, second));
    assert!(!Heatmap::accepts(1_000_000, 2, second, Duration::from_millis(3)));
    assert!(!Heatmap::accepts(u64::MAX, 19, second, milli));
    assert!(!Heatmap::accepts(u64::MAX, 2, Duration::from_nanos(u64::MAX), Duration::from_nanos(1)));
}

#[test]
fn ring_merge() {
    let scheme = BucketScheme::new(4, 1);
    assert_eq!(scheme.buckets(), 5);
    let tags: Vec<u64> = vec![8, 5, 6, 3];
    let counts: Vec<Vec<u64>> = vec![
        vec![0, 0, 0, 0, 1],
        vec![0, 2, 0, 0, 0],
        vec![0, 0, 3, 0, 0],
        vec![9, 0, 0, 0, 0],
    ];
    let p = Percentile::from_percent;
    // in generation 8 the slots of generations 8, 5 and 6 count
    assert_eq!(percentile_of_ring(&scheme, &tags, &counts, 8, p(0)), Ok(1));
    assert_eq!(percentile_of_ring(&scheme, &tags, &counts, 8, p(33)), Ok(1));
    assert_eq!(percentile_of_ring(&scheme, &tags, &counts, 8, p(34)), Ok(2));
    assert_eq!(percentile_of_ring(&scheme, &tags, &counts, 8, p(83)), Ok(2));
    assert_eq!(percentile_of_ring(&scheme, &tags, &counts, 8, p(84)), Ok(4));
    // in generation 6 all four count
    assert_eq!(percentile_of_ring(&scheme, &tags, &counts, 6, p(0)), Ok(0));
    assert_eq!(percentile_of_ring(&scheme, &tags, &counts, 6, p(100)), Ok(4));
    // in generation 9 the slot of generation 5 is out
    assert_eq!(percentile_of_ring(&scheme, &tags, &counts, 9, p(0)), Ok(2));
    // in generation 12 nothing is left
    assert_eq!(
        percentile_of_ring(&scheme, &tags, &counts, 12, p(50)),
        Err(HeatmapError::Empty)
    );
    assert_eq!(percentile_of_ring(&scheme, &tags, &counts, 11, p(50)), Ok(4));
}

#[test]
fn atomic_window_operations() {
    let window = AtomicWindow::new(4, 7);
    assert_eq!(window.generation(), 7);
    assert_eq!(window.counts(), vec![0, 0, 0, 0]);
    window.insert(2, 5);
    window.insert(2, 6);
    window.insert(3, u64::MAX);
    window.insert(3, 9);
    assert_eq!(window.count_at(2), 11);
    assert_eq!(window.count_at(3), u64::MAX);
    assert_eq!(window.counts(), vec![0, 0, 11, u64::MAX]);
    assert_eq!(window.take_over(6, 9), Err(7));
    assert_eq!(window.generation(), 7);
    assert_eq!(window.take_over(7, 9), Ok(7));
    assert_eq!(window.generation(), 9);
    window.clear();
    assert_eq!(window.counts(), vec![0, 0, 0, 0]);
    assert_eq!(window.generation(), 9);
}

#[test]
fn atomic_snapshot() {
    let start = Instant::from_nanos(0);
    let atomic =
        AtomicHeatmap::new(4, 1, Duration::from_nanos(30), Duration::from_nanos(10), start);
    atomic.increment(Instant::from_nanos(15), 3, 2);
    atomic.increment(Instant::from_nanos(31), 1, 1);
    let (tags, counts) = atomic.snapshot();
    assert_eq!(tags, vec![3, 1, 2]);
    assert_eq!(
        counts,
        vec![vec![0, 1, 0, 0, 0], vec![0, 0, 0, 2, 0], vec![0, 0, 0, 0, 0]]
    );
}

#[test]
fn saturating_arithmetic() {
    assert_eq!(saturating_more(3, 4), 7);
    assert_eq!(saturating_more(u64::MAX - 1, 4), u64::MAX);
    assert_eq!(saturating_less(7, 4), 3);
    assert_eq!(saturating_less(3, 4), 0);
    assert_eq!(adjusted(3, true, 4), 7);
    assert_eq!(adjusted(u64::MAX, true, 1), u64::MAX);
    assert_eq!(adjusted(7, false, 4), 3);
    assert_eq!(adjusted(3, false, 4), 0);
}

#[test]
fn landings() {
    let scheme = BucketScheme::new(1_000_000, 2);
    let created = Instant::from_nanos(1_000);
    let resolution = Duration::from_nanos(10);
    assert_eq!(landing(&scheme, created, resolution, 4, Instant::from_nanos(999), 5), None);
    assert_eq!(landing(&scheme, created, resolution, 4, Instant::from_nanos(0), 5), None);
    assert_eq!(
        landing(&scheme, created, resolution, 4, Instant::from_nanos(1_000), 5),
        Some(Landing { generation: 0, slot: 0, bucket: 5 })
    );
    assert_eq!(
        landing(&scheme, created, resolution, 4, Instant::from_nanos(1_255), 404),
        Some(Landing { generation: 25, slot: 1, bucket: 301 })
    );
    assert_eq!(
        landing(&scheme, created, resolution, 1, Instant::from_nanos(1_255), u64::MAX),
        Some(Landing { generation: 25, slot: 0, bucket: 1422 })
    );
}

#[test]
fn a_sample_before_creation_changes_nothing() {
    let created = Instant::from_nanos(100);
    let atomic =
        AtomicHeatmap::new(4, 1, Duration::from_nanos(30), Duration::from_nanos(10), created);
    atomic.increment(Instant::from_nanos(115), 3, 2);
    let before = atomic.snapshot();
    atomic.increment(Instant::from_nanos(99), 1, 7);
    atomic.increment(Instant::from_nanos(0), 4, 1);
    assert_eq!(atomic.snapshot(), before);
}

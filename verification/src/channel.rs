//! A channel: what is kept for one statistic. It holds the current reading,
//! the time of the last accepted record, a summary of the readings if one
//! was asked for, and the set of outputs to report.

use vstd::prelude::*;
use core::sync::atomic::{AtomicBool, AtomicU64};
use crossbeam::atomic::AtomicCell;
use dashmap::DashSet;
use crate::atomic_heatmap::AtomicHeatmap;
use crate::atomics::{fetch_add_u64, load_bool, load_u64, store_bool, store_u64};
use crate::error::{HeatmapError, MetricsError};
use crate::instant::{Duration, Instant, NANOS_PER_SEC};
use crate::rank::Percentile;
use crate::statistic::{ApproxOutput, Output, Statistic, Summary};
use crate::heatmap::generation_from;
use crate::ring::merged_ring;
use crate::window::percentile_value;

verus! {

#[verifier::external_type_specification]
#[verifier::external_body]
#[verifier::reject_recursive_types(T)]
pub struct ExAtomicCell<T>(AtomicCell<T>);

#[verifier::external_type_specification]
#[verifier::external_body]
#[verifier::reject_recursive_types(K)]
#[verifier::reject_recursive_types(S)]
pub struct ExDashSet<K, S>(DashSet<K, S>);

/// The keys that a set holds.
pub uninterp spec fn set_contents(set: DashSet<u128>) -> Set<u128>;

/// `AtomicCell::new`: a cell that holds `value`.
#[verifier::external_body]
fn cell_new(value: Instant) -> AtomicCell<Instant> {
    AtomicCell::new(value)
}

/// `AtomicCell::load`: the instant that the cell holds now. Nothing is
/// claimed of it: another thread may have stored it.
#[verifier::external_body]
fn cell_load(cell: &AtomicCell<Instant>) -> Instant {
    cell.load()
}

/// `AtomicCell::store`: puts `value` into the cell.
#[verifier::external_body]
fn cell_store(cell: &AtomicCell<Instant>, value: Instant) {
    cell.store(value)
}

/// `DashSet::new`: a set without keys.
#[verifier::external_body]
fn set_new() -> (set: DashSet<u128>)
    ensures
        set_contents(set) == Set::<u128>::empty(),
{
    DashSet::new()
}

/// `DashSet::insert`: the set holds `key` afterwards and whatever it held
/// before; the result tells whether `key` is new to it.
#[verifier::external_body]
fn set_insert(set: &mut DashSet<u128>, key: u128) -> (fresh: bool)
    ensures
        set_contents(*final(set)) == set_contents(*old(set)).insert(key),
        fresh == !set_contents(*old(set)).contains(key),
{
    set.insert(key)
}

/// `DashSet::remove`: the set holds what it held before but `key`; the
/// result is `key` if the set held it.
#[verifier::external_body]
fn set_remove(set: &mut DashSet<u128>, key: u128) -> (removed: Option<u128>)
    ensures
        set_contents(*final(set)) == set_contents(*old(set)).remove(key),
        removed == (if set_contents(*old(set)).contains(key) {
            Some(key)
        } else {
            None
        }),
{
    set.remove(&key)
}

/// `DashSet::iter`: the keys of the set, each once, in no order that is
/// promised.
#[verifier::external_body]
fn set_items(set: &DashSet<u128>) -> (items: Vec<u128>)
    ensures
        items@.to_set() == set_contents(*set),
        items@.no_duplicates(),
{
    set.iter().map(|key| *key).collect()
}

/// By how much a counter grew from `old` to `new`. A reading below the
/// last one is taken for a counter that wrapped around at two to the 64.
pub open spec fn counter_delta(new: u64, old: u64) -> u64 {
    if new >= old {
        (new - old) as u64
    } else {
        (0x1_0000_0000_0000_0000 - old + new) as u64
    }
}

/// The rate of `delta` over `elapsed`, per second, rounded up and stopping
/// at the largest 64-bit value.
pub open spec fn rate_per_second(delta: u64, elapsed: Duration) -> u64 {
    let exact = (delta * NANOS_PER_SEC + elapsed.nanos - 1) / (elapsed.nanos as int);
    if exact > u64::MAX {
        u64::MAX
    } else {
        exact as u64
    }
}

/// The rate of `delta` over `elapsed`, per second.
pub fn rate_of(delta: u64, elapsed: Duration) -> (rate: u64)
    requires
        elapsed.nanos > 0,
    ensures
        rate == rate_per_second(delta, elapsed),
{
    let scaled: u128 = delta as u128 * NANOS_PER_SEC as u128;
    let nanos: u128 = elapsed.nanos as u128;
    let exact: u128 = (scaled + (nanos - 1)) / nanos;
    if exact > u64::MAX as u128 {
        u64::MAX
    } else {
        exact as u64
    }
}

/// What an accepted record stores in a channel.
#[derive(Clone, Copy, Debug, PartialEq, Eq, Structural)]
pub struct Accepted {
    /// The time of the record, which becomes the time of the last record.
    pub refreshed: Instant,
    /// The reading, which becomes the current value.
    pub reading: u64,
    /// The sample that goes into the summary, if any does.
    pub sample: Option<u64>,
}

/// What a counter reading of `value` at `time` stores in a channel that is
/// `empty` or not, was last refreshed at `refreshed` and holds `reading`.
/// A reading that is not strictly newer than the last record is ignored.
/// Any other becomes the current value, and its time the time of the last
/// record; where the channel is summarised and held a reading before, the
/// rate since that reading goes into the summary.
pub open spec fn counter_update_for(
    empty: bool,
    refreshed: Instant,
    reading: u64,
    summarised: bool,
    time: Instant,
    value: u64,
) -> Option<Accepted> {
    if time.nanos <= refreshed.nanos {
        None
    } else {
        Some(
            Accepted {
                refreshed: time,
                reading: value,
                sample: if !empty && summarised {
                    Some(
                        rate_per_second(
                            counter_delta(value, reading),
                            (Duration { nanos: (time.nanos - refreshed.nanos) as u64 }),
                        ),
                    )
                } else {
                    None
                },
            },
        )
    }
}

/// Decides what a counter reading stores in a channel.
pub fn counter_update(
    empty: bool,
    refreshed: Instant,
    reading: u64,
    summarised: bool,
    time: Instant,
    value: u64,
) -> (update: Option<Accepted>)
    ensures
        update == counter_update_for(empty, refreshed, reading, summarised, time, value),
{
    if time.nanos <= refreshed.nanos {
        return None;
    }
    let sample = if !empty && summarised {
        let delta = if value >= reading {
            value - reading
        } else {
            (u64::MAX - reading) + value + 1
        };
        let elapsed = Duration { nanos: time.nanos - refreshed.nanos };
        Some(rate_of(delta, elapsed))
    } else {
        None
    };
    Some(Accepted { refreshed: time, reading: value, sample })
}

/// What a gauge reading of `value` at `time` stores in a channel that was
/// last refreshed at `refreshed`. A reading that is not strictly newer than
/// the last record is ignored. Any other becomes the current value, and its
/// time the time of the last record; where the channel is summarised, the
/// value goes into the summary.
pub open spec fn gauge_update_for(
    refreshed: Instant,
    summarised: bool,
    time: Instant,
    value: u64,
) -> Option<Accepted> {
    if time.nanos <= refreshed.nanos {
        None
    } else {
        Some(
            Accepted {
                refreshed: time,
                reading: value,
                sample: if summarised {
                    Some(value)
                } else {
                    None
                },
            },
        )
    }
}

/// Decides what a gauge reading stores in a channel.
pub fn gauge_update(refreshed: Instant, summarised: bool, time: Instant, value: u64) -> (update:
    Option<Accepted>)
    ensures
        update == gauge_update_for(refreshed, summarised, time, value),
{
    if time.nanos <= refreshed.nanos {
        None
    } else {
        Some(
            Accepted {
                refreshed: time,
                reading: value,
                sample: if summarised {
                    Some(value)
                } else {
                    None
                },
            },
        )
    }
}

/// The reading of a channel whose flag says that it is `empty` or not and
/// whose cell holds `held`: `held`, unless nothing was recorded yet.
pub open spec fn reading_for(empty: bool, held: u64) -> Result<u64, MetricsError> {
    if empty {
        Err(MetricsError::Empty)
    } else {
        Ok(held)
    }
}

/// The reading of a channel whose flag says that it is `empty` or not and
/// whose cell holds `held`.
pub fn reading_of(empty: bool, held: u64) -> (r: Result<u64, MetricsError>)
    ensures
        r == reading_for(empty, held),
{
    if empty {
        Err(MetricsError::Empty)
    } else {
        Ok(held)
    }
}

/// The answer of a channel for the answer of its summary.
pub open spec fn channel_answer(answer: Result<u64, HeatmapError>) -> Result<u64, MetricsError> {
    match answer {
        Ok(value) => Ok(value),
        Err(_) => Err(MetricsError::Empty),
    }
}

/// What is kept for one statistic.
pub struct Channel {
    refreshed: AtomicCell<Instant>,
    statistic: Statistic,
    empty: AtomicBool,
    reading: AtomicU64,
    summary: Option<AtomicHeatmap>,
    outputs: DashSet<u128>,
}

impl Channel {
    /// The statistic that this channel is for.
    pub closed spec fn spec_statistic(self) -> Statistic {
        self.statistic
    }

    /// The summary of this channel, if it has one.
    pub closed spec fn summary(self) -> Option<AtomicHeatmap> {
        self.summary
    }

    /// Whether this channel has a summary.
    pub open spec fn has_summary(self) -> bool {
        self.summary() is Some
    }

    /// The outputs of this channel, each as its code.
    pub closed spec fn output_codes(self) -> Set<u128> {
        set_contents(self.outputs)
    }

    /// Creates an empty channel for a statistic, with the summary that the
    /// statistic asks for. Only records after `now` are accepted.
    pub fn new(statistic: &Statistic, now: Instant) -> (channel: Channel)
        ensures
            channel.spec_statistic().name@ == statistic.name@,
            channel.spec_statistic().source == statistic.source,
            channel.spec_statistic().summary == statistic.summary,
            channel.has_summary() == statistic.summary.is_some(),
            statistic.summary matches Some(summary) ==> {
                &&& channel.summary().unwrap().scheme().max_value() == summary.max_value()
                &&& channel.summary().unwrap().scheme().precision() == summary.precision()
                &&& channel.summary().unwrap().span() == summary.span()
                &&& channel.summary().unwrap().resolution() == summary.resolution()
                &&& channel.summary().unwrap().created() == now
            },
            channel.output_codes() == Set::<u128>::empty(),
    {
        let summary = match statistic.summary {
            Some(summary) => Some(summary.build(now)),
            None => None,
        };
        Channel {
            empty: AtomicBool::new(true),
            statistic: statistic.duplicate(),
            reading: AtomicU64::new(0),
            refreshed: cell_new(now),
            summary,
            outputs: set_new(),
        }
    }

    /// Records a bucket value + count pair into the summary.
    pub fn record_bucket(&self, time: Instant, value: u64, count: u64) -> (r: Result<
        (),
        MetricsError,
    >)
        ensures
            self.has_summary() ==> r == Ok::<(), MetricsError>(()),
            !self.has_summary() ==> r == Err::<(), MetricsError>(MetricsError::NoSummary),
    {
        match &self.summary {
            Some(summary) => {
                summary.increment(time, value, count);
                Ok(())
            },
            None => Err(MetricsError::NoSummary),
        }
    }

    /// Stores what an accepted record asks for.
    fn store(&self, accepted: Accepted) {
        cell_store(&self.refreshed, accepted.refreshed);
        match (&self.summary, accepted.sample) {
            (Some(summary), Some(sample)) => {
                summary.increment(accepted.refreshed, sample, 1);
            },
            _ => {},
        }
        store_u64(&self.reading, accepted.reading);
        store_bool(&self.empty, false);
    }

    /// Updates a counter to a new value if the reading is newer than the
    /// stored reading. The rate since the stored reading goes into the
    /// summary.
    pub fn record_counter(&self, time: Instant, value: u64) {
        let t0 = cell_load(&self.refreshed);
        let empty = load_bool(&self.empty);
        let v0 = load_u64(&self.reading);
        match counter_update(empty, t0, v0, self.summary.is_some(), time, value) {
            Some(accepted) => self.store(accepted),
            None => {},
        }
    }

    /// Increment a counter by an amount, wrapping around. The summary is
    /// left alone.
    pub fn increment_counter(&self, value: u64) {
        store_bool(&self.empty, false);
        fetch_add_u64(&self.reading, value);
    }

    /// Updates a gauge reading if the new value is newer than the stored
    /// value. The value goes into the summary.
    pub fn record_gauge(&self, time: Instant, value: u64) {
        let t0 = cell_load(&self.refreshed);
        match gauge_update(t0, self.summary.is_some(), time, value) {
            Some(accepted) => self.store(accepted),
            None => {},
        }
    }

    /// Returns a percentile across stored readings/rates, as a query at
    /// `now` sees them: the percentile of the merge of the ring that this
    /// call read.
    pub fn percentile(&self, now: Instant, percentile: Percentile) -> (r: Result<u64, MetricsError>)
        ensures
            !self.has_summary() ==> r == Err::<u64, MetricsError>(MetricsError::NoSummary),
            self.has_summary() ==> exists|tags: Seq<u64>, rows: Seq<Seq<u64>>|
                #[trigger] self.summary().unwrap().is_snapshot(tags, rows) && r == channel_answer(
                    percentile_value(
                        self.summary().unwrap().scheme(),
                        merged_ring(
                            tags,
                            rows,
                            generation_from(
                                self.summary().unwrap().created().nanos,
                                self.summary().unwrap().resolution().nanos,
                                now,
                            ) as u64,
                        ),
                        percentile,
                    ),
                ),
    {
        match &self.summary {
            Some(summary) => {
                match summary.percentile(now, percentile) {
                    Ok(value) => Ok(value),
                    Err(error) => Err(MetricsError::from_heatmap(error)),
                }
            },
            None => Err(MetricsError::NoSummary),
        }
    }

    /// Returns the main reading for the channel (eg: counter, gauge)
    pub fn reading(&self) -> (r: Result<u64, MetricsError>)
        ensures
            r is Err ==> r == Err::<u64, MetricsError>(MetricsError::Empty),
    {
        let empty = load_bool(&self.empty);
        let held = load_u64(&self.reading);
        reading_of(empty, held)
    }

    /// Set a summary to be used for an existing channel. The summary
    /// counts time from `now`.
    pub fn set_summary(&mut self, summary: Summary, now: Instant)
        ensures
            final(self).has_summary(),
            final(self).summary().unwrap().scheme().max_value() == summary.max_value(),
            final(self).summary().unwrap().scheme().precision() == summary.precision(),
            final(self).summary().unwrap().span() == summary.span(),
            final(self).summary().unwrap().resolution() == summary.resolution(),
            final(self).summary().unwrap().created() == now,
            final(self).output_codes() == old(self).output_codes(),
            final(self).spec_statistic() == old(self).spec_statistic(),
    {
        self.summary = Some(summary.build(now));
    }

    /// Set a summary to be used for an existing channel that has none.
    pub fn add_summary(&mut self, summary: Summary, now: Instant)
        ensures
            final(self).has_summary(),
            old(self).has_summary() ==> final(self).summary() == old(self).summary(),
            !old(self).has_summary() ==> {
                &&& final(self).summary().unwrap().scheme().max_value() == summary.max_value()
                &&& final(self).summary().unwrap().scheme().precision() == summary.precision()
                &&& final(self).summary().unwrap().span() == summary.span()
                &&& final(self).summary().unwrap().resolution() == summary.resolution()
                &&& final(self).summary().unwrap().created() == now
            },
            final(self).output_codes() == old(self).output_codes(),
            final(self).spec_statistic() == old(self).spec_statistic(),
    {
        if self.summary.is_none() {
            self.set_summary(summary, now);
        }
    }

    pub fn statistic(&self) -> (statistic: &Statistic)
        ensures
            *statistic == self.spec_statistic(),
    {
        &self.statistic
    }

    /// The outputs of this channel, in no order that is promised.
    pub fn outputs(&self) -> (outputs: Vec<ApproxOutput>)
        ensures
            forall|a: ApproxOutput|
                outputs@.contains(a) <==> self.output_codes().contains(#[trigger] a.spec_code()),
            outputs@.no_duplicates(),
    {
        let items = set_items(&self.outputs);
        let mut ret: Vec<ApproxOutput> = Vec::new();
        let mut i: usize = 0;
        while i < items.len()
            invariant
                i <= items.len(),
                items@.no_duplicates(),
                ret@.no_duplicates(),
                forall|a: ApproxOutput|
                    ret@.contains(a) <==> items@.take(i as int).contains(#[trigger] a.spec_code()),
            decreases items.len() - i,
        {
            let code = items[i];
            let ghost before = ret@;
            let decoded = ApproxOutput::from_code(code);
            match decoded {
                Some(output) => {
                    ret.push(output);
                },
                None => {},
            }
            proof {
                let seen = items@.take(i as int);
                let more = items@.take(i + 1);
                assert(more =~= seen.push(code));
                if let Some(output) = decoded {
                    if before.contains(output) {
                        let j = choose|j: int| 0 <= j < seen.len() && seen[j] == output.spec_code();
                        assert(items@[j] == items@[i as int]);
                    }
                    assert(ret@ =~= before.push(output));
                }
                assert forall|a: ApproxOutput|
                    ret@.contains(a) <==> more.contains(#[trigger] a.spec_code()) by {
                    if ret@.contains(a) {
                        if before.contains(a) {
                            let j = choose|j: int| 0 <= j < seen.len() && seen[j] == a.spec_code();
                            assert(more[j] == a.spec_code());
                        } else {
                            assert(decoded == Some(a));
                            assert(more[i as int] == a.spec_code());
                        }
                    }
                    if more.contains(a.spec_code()) {
                        let j = choose|j: int| 0 <= j < more.len() && more[j] == a.spec_code();
                        if j < i {
                            assert(seen[j] == a.spec_code());
                            assert(before.contains(a));
                            let k = choose|k: int| 0 <= k < before.len() && before[k] == a;
                            assert(ret@[k] == a);
                        } else {
                            assert(decoded == Some(a));
                            assert(ret@[ret@.len() - 1] == a);
                        }
                    }
                }
            }
            i = i + 1;
        }
        proof {
            assert(items@.take(items.len() as int) =~= items@);
            assert forall|a: ApproxOutput|
                ret@.contains(a) <==> self.output_codes().contains(#[trigger] a.spec_code()) by {
                assert(items@.to_set().contains(a.spec_code()) <==> items@.contains(a.spec_code()));
            }
        }
        ret
    }

    /// Asks for `output` to be reported.
    pub fn add_output(&mut self, output: Output)
        ensures
            final(self).output_codes() == old(self).output_codes().insert(
                ApproxOutput::of(output).spec_code(),
            ),
            final(self).summary() == old(self).summary(),
            final(self).spec_statistic() == old(self).spec_statistic(),
    {
        let code = ApproxOutput::from_output(output).code();
        set_insert(&mut self.outputs, code);
    }

    /// Asks for `output` not to be reported any more.
    pub fn remove_output(&mut self, output: Output)
        ensures
            final(self).output_codes() == old(self).output_codes().remove(
                ApproxOutput::of(output).spec_code(),
            ),
            final(self).summary() == old(self).summary(),
            final(self).spec_statistic() == old(self).spec_statistic(),
    {
        let code = ApproxOutput::from_output(output).code();
        set_remove(&mut self.outputs, code);
    }
}

} // verus!

//! What describes a statistic: its name, the kind of its source, the
//! summary kept of its readings and the outputs asked of it.

use vstd::prelude::*;
use crate::atomic_heatmap::AtomicHeatmap;
use crate::heatmap::Heatmap;
use crate::instant::{Duration, Instant};
use crate::rank::Percentile;

verus! {

/// The kind of source that a statistic reads.
#[derive(Clone, Copy, Debug, PartialEq, Eq, Structural, Hash)]
pub enum Source {
    /// A reading that only grows; its rate of change is summarised.
    Counter,
    /// A reading that moves both ways; its values are summarised.
    Gauge,
}

/// The parameters of the heatmap that summarises a statistic.
#[derive(Clone, Copy, Debug)]
pub struct Summary {
    max_value: u64,
    precision: u8,
    span: Duration,
    resolution: Duration,
}

impl Summary {
    #[verifier::type_invariant]
    spec fn inv(self) -> bool {
        &&& Heatmap::divides(self.span, self.resolution)
        &&& Heatmap::addressable(self.max_value, self.precision, self.span, self.resolution)
    }

    pub closed spec fn max_value(self) -> u64 {
        self.max_value
    }

    pub closed spec fn precision(self) -> u8 {
        self.precision
    }

    pub closed spec fn span(self) -> Duration {
        self.span
    }

    pub closed spec fn resolution(self) -> Duration {
        self.resolution
    }

    /// A summary by a heatmap for values up to `max_value` with `precision`
    /// significant digits over the last `span` of time, in slots of
    /// `resolution` each.
    pub fn heatmap(max_value: u64, precision: u8, span: Duration, resolution: Duration) -> (s:
        Summary)
        requires
            Heatmap::divides(span, resolution),
            Heatmap::addressable(max_value, precision, span, resolution),
        ensures
            s.max_value() == max_value,
            s.precision() == precision,
            s.span() == span,
            s.resolution() == resolution,
    {
        Summary { max_value, precision, span, resolution }
    }

    /// The heatmap that this summary describes, counting time from
    /// `created`.
    pub fn build(&self, created: Instant) -> (h: AtomicHeatmap)
        ensures
            h.scheme().max_value() == self.max_value(),
            h.scheme().precision() == self.precision(),
            h.created() == created,
            h.span() == self.span(),
            h.resolution() == self.resolution(),
    {
        proof {
            use_type_invariant(self);
        }
        AtomicHeatmap::new(self.max_value, self.precision, self.span, self.resolution, created)
    }
}

/// A statistic: a name, the kind of its source, and the summary to keep of
/// it, if any.
#[derive(Debug)]
pub struct Statistic {
    pub name: String,
    pub source: Source,
    pub summary: Option<Summary>,
}

impl Statistic {
    pub fn new(name: &str, source: Source, summary: Option<Summary>) -> (s: Statistic)
        ensures
            s.name@ == name@,
            s.source == source,
            s.summary == summary,
    {
        Statistic { name: name.to_owned(), source, summary }
    }

    /// A copy of this statistic.
    pub fn duplicate(&self) -> (s: Statistic)
        ensures
            s.name@ == self.name@,
            s.source == self.source,
            s.summary == self.summary,
    {
        Statistic { name: self.name.clone(), source: self.source, summary: self.summary }
    }

    pub fn name(&self) -> (name: &str)
        ensures
            name@ == self.name@,
    {
        self.name.as_str()
    }

    pub fn source(&self) -> (source: Source)
        ensures
            source == self.source,
    {
        self.source
    }

    pub fn summary(&self) -> (summary: Option<Summary>)
        ensures
            summary == self.summary,
    {
        self.summary
    }
}

/// What can be asked of a statistic.
#[derive(Clone, Copy, Debug, PartialEq, Eq, Structural, Hash)]
pub enum Output {
    /// The current reading.
    Reading,
    /// The value at a percentile of the summary.
    Percentile(Percentile),
}

/// An output in the form in which a channel keeps it.
#[derive(Clone, Copy, Debug, PartialEq, Eq, Structural, Hash)]
pub enum ApproxOutput {
    Reading,
    /// A percentile in millionths of a percent.
    Percentile(u64),
}

impl ApproxOutput {
    /// The number that stands for this output in a set: zero for the
    /// reading, the millionths plus one for a percentile.
    pub open spec fn spec_code(self) -> u128 {
        match self {
            ApproxOutput::Reading => 0,
            ApproxOutput::Percentile(millionths) => (millionths + 1) as u128,
        }
    }

    /// The output that `code` stands for, if any.
    pub open spec fn spec_from_code(code: u128) -> Option<ApproxOutput> {
        if code == 0 {
            Some(ApproxOutput::Reading)
        } else if code - 1 <= u64::MAX {
            Some(ApproxOutput::Percentile((code - 1) as u64))
        } else {
            None
        }
    }

    /// The form in which a channel keeps `output`.
    pub open spec fn of(output: Output) -> ApproxOutput {
        match output {
            Output::Reading => ApproxOutput::Reading,
            Output::Percentile(p) => ApproxOutput::Percentile(p.millionths),
        }
    }

    /// The form in which a channel keeps `output`.
    pub fn from_output(output: Output) -> (a: ApproxOutput)
        ensures
            a == ApproxOutput::of(output),
    {
        match output {
            Output::Reading => ApproxOutput::Reading,
            Output::Percentile(p) => ApproxOutput::Percentile(p.millionths),
        }
    }

    /// The output that this stands for.
    pub fn to_output(&self) -> (output: Output)
        ensures
            ApproxOutput::of(output) == *self,
    {
        match self {
            ApproxOutput::Reading => Output::Reading,
            ApproxOutput::Percentile(millionths) => Output::Percentile(
                Percentile { millionths: *millionths },
            ),
        }
    }

    /// The number that stands for this output in a set.
    pub fn code(&self) -> (code: u128)
        ensures
            code == self.spec_code(),
            ApproxOutput::spec_from_code(code) == Some(*self),
    {
        match self {
            ApproxOutput::Reading => 0,
            ApproxOutput::Percentile(millionths) => *millionths as u128 + 1,
        }
    }

    /// The output that `code` stands for, if any.
    pub fn from_code(code: u128) -> (a: Option<ApproxOutput>)
        ensures
            a == ApproxOutput::spec_from_code(code),
            a matches Some(output) ==> output.spec_code() == code,
    {
        if code == 0 {
            Some(ApproxOutput::Reading)
        } else if code - 1 <= u64::MAX as u128 {
            Some(ApproxOutput::Percentile((code - 1) as u64))
        } else {
            None
        }
    }
}

} // verus!

//! The errors that queries return.

use vstd::prelude::*;

verus! {

/// Why a heatmap has no answer.
#[derive(Clone, Copy, Debug, PartialEq, Eq, Structural, Hash)]
pub enum HeatmapError {
    /// No sample lies in the window that was asked about.
    Empty,
}

/// Why a channel has no answer.
#[derive(Clone, Copy, Debug, PartialEq, Eq, Structural, Hash)]
pub enum MetricsError {
    /// Nothing has been recorded yet.
    Empty,
    /// The statistic was never given a summary.
    NoSummary,
}

impl MetricsError {
    /// The channel's error for a heatmap's error.
    pub fn from_heatmap(error: HeatmapError) -> (e: MetricsError)
        ensures
            e == MetricsError::Empty,
    {
        match error {
            HeatmapError::Empty => MetricsError::Empty,
        }
    }
}

} // verus!

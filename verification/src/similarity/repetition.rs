//! Configuration of repetition curves.
use vstd::prelude::*;

verus! {

/// How repetition is aggregated across future frames.
#[derive(Debug, Clone, Copy, PartialEq, Eq, Structural)]
pub enum RepetitionAggregation {
    /// Maximum similarity to any future frame.
    Max,
    /// Mean similarity across future frames.
    Mean,
    /// Sum of similarities across future frames.
    Sum,
}

/// Configuration for repetition curve extraction.
#[derive(Debug, Clone)]
pub struct RepetitionConfig {
    /// Ignore similarities where `|i - j| < min_lag_frames`.
    pub min_lag_frames: usize,
    /// How to aggregate similarity across future frames.
    pub aggregation: RepetitionAggregation,
    /// Optional smoothing window (frames).
    pub smooth: Option<usize>,
}

impl Default for RepetitionConfig {
    /// Lags of at least 20 frames, maximum aggregation, smoothed over 7 frames.
    fn default() -> (c: Self)
        ensures
            c.min_lag_frames == 20,
            c.aggregation == RepetitionAggregation::Max,
            c.smooth == Some(7usize),
    {
        RepetitionConfig {
            min_lag_frames: 20,
            aggregation: RepetitionAggregation::Max,
            smooth: Some(7),
        }
    }
}

} // verus!

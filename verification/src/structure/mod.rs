//! Musical structure decisions built on similarity and temporal measurements.
pub mod beat_loop;
pub mod sections;
pub mod segmentation;

pub use beat_loop::{valid_beat_pairs, DistanceMetric, LoopPreference};
pub use sections::guard_boundaries;
pub use segmentation::{
    accept_extension, lag_admissible, long_enough_for_loop, loop_pair_search_plan,
    next_repeat_end, refine_loop_bounds, repetition_sample_step, segment_samples,
    snap_to_nearest, SegmentKind,
};

//! Search ranges and kernels for repetition analysis over a self-similarity
//! matrix.
pub mod lag;
pub mod novelty;
pub mod repetition;

pub use lag::{
    lag_range, repeat_phase_range, LagAggregation, LagEnergyConfig, RepeatPhaseConfig,
};
pub use novelty::build_checkerboard_signs;
pub use repetition::{RepetitionAggregation, RepetitionConfig};

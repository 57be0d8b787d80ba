//! Temporal decisions: beat grids, beat intervals, tempo candidates and
//! peak selection.
pub mod beat;
pub mod peak;
pub mod sync;
pub mod tempo;

pub use beat::{beat_grid, sorted_unique_frames};
pub use peak::{neighborhood, select_separated};
pub use sync::{beat_intervals, AggregationMethod, SyncConfig};
pub use tempo::tempo_candidates;

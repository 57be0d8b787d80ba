//! rsona: music information retrieval primitives.
//!
//! This crate holds the index, range and decision logic of the analysis
//! pipeline: decoding decisions, framing layouts, configuration validation, lag and phase search
//! ranges, beat grids and beat intervals, peak selection, loop-boundary
//! refinement, and the adaptive parallel map. Every function here carries a
//! contract that Verus checks.
pub mod audio;
pub mod signal;
pub mod structure;
pub mod temporal;
pub mod similarity;
pub mod spectrum;
pub mod utils;

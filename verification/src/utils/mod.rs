//! Utilities: adaptive parallel mapping and logging setup.
pub mod logging;
pub mod parallel;

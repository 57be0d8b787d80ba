//! Spectral analysis configuration and layout.
pub mod stft;

pub use stft::{stft_layout, SpectrumError, StftConfig};

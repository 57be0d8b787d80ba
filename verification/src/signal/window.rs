use vstd::prelude::*;

verus! {

/// Supported window types for framing and STFT analysis.
#[derive(Debug, Clone, Copy, PartialEq, Eq, Structural)]
pub enum Window {
    /// Rectangular window (no tapering).
    Rectangular,
    /// Hann window.
    Hann,
    /// Hamming window.
    Hamming,
}

} // verus!

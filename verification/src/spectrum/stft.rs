//! STFT configuration and the shape of its output.
use vstd::prelude::*;

verus! {

/// Errors produced by spectrum operations.
#[derive(Debug)]
pub enum SpectrumError {
    /// Invalid STFT configuration.
    InvalidConfig(&'static str),
    /// Frames are empty.
    EmptyFrames,
}

/// Configuration for STFT.
#[derive(Debug, Clone)]
pub struct StftConfig {
    /// FFT size. Larger than the frame size zero-pads frames, smaller
    /// truncates them.
    pub n_fft: usize,
}

impl StftConfig {
    /// `n_fft` equal to the frame size.
    pub fn with_frame_size(frame_size: usize) -> (c: Self)
        ensures
            c.n_fft == frame_size,
    {
        StftConfig { n_fft: frame_size }
    }
}

impl Default for StftConfig {
    /// A 2048-point FFT.
    fn default() -> (c: Self)
        ensures
            c.n_fft == 2048,
    {
        StftConfig { n_fft: 2048 }
    }
}

/// Checks the STFT input and returns the number of one-sided frequency
/// bins, `n_fft / 2 + 1`. A zero FFT size is refused first, then a zero
/// frame size, then an empty frame set.
pub fn stft_layout(n_frames: usize, frame_size: usize, config: &StftConfig) -> (r: Result<
    usize,
    SpectrumError,
>)
    ensures
        config.n_fft == 0 ==> (r matches Err(SpectrumError::InvalidConfig(m)) && m@
            == "n_fft must be > 0"@),
        config.n_fft != 0 && frame_size == 0 ==> (r matches Err(SpectrumError::InvalidConfig(m))
            && m@ == "frames.frame_size must be > 0"@),
        config.n_fft != 0 && frame_size != 0 && n_frames == 0 ==> (r matches Err(
            SpectrumError::EmptyFrames,
        )),
        config.n_fft != 0 && frame_size != 0 && n_frames != 0 ==> r == Ok::<usize, SpectrumError>(
            (config.n_fft / 2 + 1) as usize,
        ),
{
    if config.n_fft == 0 {
        return Err(SpectrumError::InvalidConfig("n_fft must be > 0"));
    }
    if frame_size == 0 {
        return Err(SpectrumError::InvalidConfig("frames.frame_size must be > 0"));
    }
    if n_frames == 0 {
        return Err(SpectrumError::EmptyFrames);
    }
    Ok((config.n_fft / 2) + 1)
}

} // verus!

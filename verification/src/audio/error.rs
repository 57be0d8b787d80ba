//! Errors that can occur while loading audio.
use vstd::prelude::*;

verus! {

/// The I/O error that opening or reading a file can produce.
#[verifier::external_type_specification]
#[verifier::external_body]
pub struct ExIoError(std::io::Error);

/// Errors that can occur while loading audio.
#[derive(Debug)]
pub enum AudioError {
    /// Unsupported audio format.
    UnsupportedFormat,
    /// Failed to decode audio.
    DecodeError,
    /// I/O error.
    Io(std::io::Error),
}

impl From<std::io::Error> for AudioError {
    fn from(e: std::io::Error) -> (r: Self) {
        AudioError::Io(e)
    }
}

impl vstd::std_specs::convert::FromSpecImpl<std::io::Error> for AudioError {
    open spec fn obeys_from_spec() -> bool {
        true
    }

    open spec fn from_spec(v: std::io::Error) -> Self {
        AudioError::Io(v)
    }
}

} // verus!

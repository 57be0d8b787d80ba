//! The decisions taken while decoding a file: the stream parameters that
//! must be present, the capacity reserved for the samples, and the step
//! taken for each packet read from the container.
use vstd::prelude::*;

use super::error::AudioError;

verus! {

/// The number of samples reserved when the stream does not report its
/// length: about three minutes of stereo audio at 44.1 kHz.
pub const DEFAULT_CAPACITY: usize = 16_000_000;

/// The sample rate and channel count of the selected track, as the codec
/// parameters report them. Either one missing is a decode error.
pub fn stream_layout(sample_rate: Option<u32>, channels: Option<usize>) -> (r: Result<
    (u32, usize),
    AudioError,
>)
    ensures
        r is Ok <==> (sample_rate is Some && channels is Some),
        r is Ok ==> r->Ok_0 == (sample_rate->Some_0, channels->Some_0),
        r is Err ==> r->Err_0 is DecodeError,
{
    let rate = match sample_rate {
        Some(rate) => rate,
        None => return Err(AudioError::DecodeError),
    };
    let count = match channels {
        Some(count) => count,
        None => return Err(AudioError::DecodeError),
    };
    Ok((rate, count))
}

/// How many interleaved samples to reserve before decoding: the reported
/// frame count times the channel count, or [`DEFAULT_CAPACITY`] when the
/// stream does not report its length.
pub fn estimated_capacity(n_frames: Option<u64>, channels: usize) -> (r: usize)
    requires
        n_frames is Some ==> n_frames->Some_0 * channels <= u64::MAX,
    ensures
        r == match n_frames {
            Some(frames) => (frames * channels) as usize,
            None => DEFAULT_CAPACITY,
        },
{
    match n_frames {
        Some(frames) => {
            let total: u64 = frames * (channels as u64);
            total as usize
        },
        None => DEFAULT_CAPACITY,
    }
}

/// What the container reader produced on one read.
#[derive(Debug, Clone, Copy, PartialEq, Eq, Structural)]
pub enum PacketEvent {
    /// A packet belonging to the track with this id.
    Packet {
        /// The track the packet belongs to.
        track_id: u32,
    },
    /// The reader hit the end of the stream (an I/O error from the reader).
    EndOfStream,
    /// Any other read error.
    ReadFailed,
}

/// What to do after a read.
#[derive(Debug, Clone, Copy, PartialEq, Eq, Structural)]
pub enum PacketAction {
    /// Decode the packet and append its samples.
    Decode,
    /// Ignore the packet: it belongs to another track.
    Skip,
    /// Stop reading: all samples have been collected.
    Finish,
}

/// The step taken for one read while decoding the track `track_id`: decode
/// its own packets, skip those of other tracks, finish at the end of the
/// stream, and fail with a decode error on any other read error.
pub fn packet_step(event: PacketEvent, track_id: u32) -> (r: Result<PacketAction, AudioError>)
    ensures
        match event {
            PacketEvent::Packet { track_id: id } => r is Ok && r->Ok_0 == (if id == track_id {
                PacketAction::Decode
            } else {
                PacketAction::Skip
            }),
            PacketEvent::EndOfStream => r is Ok && r->Ok_0 == PacketAction::Finish,
            PacketEvent::ReadFailed => r is Err && r->Err_0 is DecodeError,
        },
{
    match event {
        PacketEvent::Packet { track_id: id } => {
            if id == track_id {
                Ok(PacketAction::Decode)
            } else {
                Ok(PacketAction::Skip)
            }
        },
        PacketEvent::EndOfStream => Ok(PacketAction::Finish),
        PacketEvent::ReadFailed => Err(AudioError::DecodeError),
    }
}

} // verus!

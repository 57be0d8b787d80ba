//! Decoding decisions: which stream parameters a decoder must report, how
//! much room to reserve for the samples, and what to do with each packet.
//! Reading and decoding the file itself happens outside this crate.
pub mod decode;
pub mod error;

pub use decode::{estimated_capacity, packet_step, stream_layout, PacketAction, PacketEvent};
pub use error::AudioError;

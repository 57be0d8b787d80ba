//! Time-domain signal utilities: framing layouts and window kinds.
pub mod frame;
pub mod window;

pub use frame::{
    check_frame_input, compute_frame_count, extract_channel, frame_row, frame_signal,
    validate_config, ChannelMode, FrameConfig, Padding, SignalError,
};
pub use window::Window;

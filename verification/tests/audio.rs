use rsona::audio::{
    estimated_capacity, packet_step, stream_layout, AudioError, PacketAction, PacketEvent,
};
use rsona::audio::decode::DEFAULT_CAPACITY;

#[test]
fn stream_layout_requires_rate_and_channels() {
    assert_eq!(stream_layout(Some(44100), Some(2)).unwrap(), (44100, 2));
    assert!(matches!(stream_layout(None, Some(2)), Err(AudioError::DecodeError)));
    assert!(matches!(stream_layout(Some(48000), None), Err(AudioError::DecodeError)));
    assert!(matches!(stream_layout(None, None), Err(AudioError::DecodeError)));
}

#[test]
fn capacity_from_reported_length() {
    assert_eq!(estimated_capacity(Some(1000), 2), 2000);
    assert_eq!(estimated_capacity(Some(0), 2), 0);
    assert_eq!(estimated_capacity(None, 2), 16_000_000);
    assert_eq!(DEFAULT_CAPACITY, 16_000_000);
}

#[test]
fn packet_steps() {
    assert!(matches!(
        packet_step(PacketEvent::Packet { track_id: 3 }, 3),
        Ok(PacketAction::Decode)
    ));
    assert!(matches!(
        packet_step(PacketEvent::Packet { track_id: 4 }, 3),
        Ok(PacketAction::Skip)
    ));
    assert!(matches!(packet_step(PacketEvent::EndOfStream, 3), Ok(PacketAction::Finish)));
    assert!(matches!(packet_step(PacketEvent::ReadFailed, 3), Err(AudioError::DecodeError)));
}

#[test]
fn io_error_converts() {
    let e = std::io::Error::new(std::io::ErrorKind::NotFound, "missing");
    let converted: AudioError = e.into();
    assert!(matches!(converted, AudioError::Io(_)));
}

use rsona::spectrum::{stft_layout, SpectrumError, StftConfig};

#[test]
fn layout_bins() {
    assert_eq!(stft_layout(10, 2048, &StftConfig::default()).unwrap(), 1025);
    assert_eq!(stft_layout(1, 4096, &StftConfig::with_frame_size(4096)).unwrap(), 2049);
    assert_eq!(stft_layout(1, 512, &StftConfig::with_frame_size(511)).unwrap(), 256);
}

#[test]
fn layout_errors() {
    match stft_layout(10, 2048, &StftConfig { n_fft: 0 }) {
        Err(SpectrumError::InvalidConfig(m)) => assert_eq!(m, "n_fft must be > 0"),
        other => panic!("unexpected {:?}", other),
    }
    match stft_layout(10, 0, &StftConfig::default()) {
        Err(SpectrumError::InvalidConfig(m)) => assert_eq!(m, "frames.frame_size must be > 0"),
        other => panic!("unexpected {:?}", other),
    }
    assert!(matches!(stft_layout(0, 2048, &StftConfig::default()), Err(SpectrumError::EmptyFrames)));
}

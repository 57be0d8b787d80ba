use rsona::signal::{
    check_frame_input, compute_frame_count, extract_channel, frame_signal, validate_config,
    ChannelMode, FrameConfig, Padding, SignalError, Window,
};

fn stereo_samples() -> Vec<f32> {
    // L: [1,2,3,4], R: [10,20,30,40]
    vec![1.0, 10.0, 2.0, 20.0, 3.0, 30.0, 4.0, 40.0]
}

#[test]
fn frame_extract_channel_0_rectangular() {
    let samples = stereo_samples();
    let cfg = FrameConfig {
        frame_size: 2,
        hop_size: 1,
        window: Window::Rectangular,
        padding: Padding::NoPad,
        channel_mode: ChannelMode::Channel(0),
        center: false,
    };
    assert!(check_frame_input(samples.len(), 2, &cfg).is_ok());
    let mono = extract_channel(&samples, 2, 0).unwrap();
    let (frames, n_frames) = frame_signal(&mono, 0.0f32, &cfg);
    assert_eq!(n_frames, 3);
    assert_eq!(frames.as_slice(), &[1.0, 2.0, 2.0, 3.0, 3.0, 4.0]);
}

#[test]
fn frame_padding_zeropad_end_allows_partial() {
    let samples = vec![1.0f32, 2.0, 3.0];
    let cfg = FrameConfig {
        frame_size: 4,
        hop_size: 2,
        window: Window::Rectangular,
        padding: Padding::ZeroPadEnd,
        channel_mode: ChannelMode::Channel(0),
        center: false,
    };
    assert!(check_frame_input(samples.len(), 1, &cfg).is_ok());
    let mono = extract_channel(&samples, 1, 0).unwrap();
    let (frames, n_frames) = frame_signal(&mono, 0.0f32, &cfg);
    assert_eq!(n_frames, 2);
    assert_eq!(frames.as_slice(), &[1.0, 2.0, 3.0, 0.0, 3.0, 0.0, 0.0, 0.0]);
}

#[test]
fn frame_signal_centered_pads_both_ends() {
    let x: Vec<u32> = vec![1, 2, 3, 4, 5];
    let cfg = FrameConfig {
        frame_size: 4,
        hop_size: 2,
        window: Window::Hann,
        padding: Padding::ZeroPadEnd,
        channel_mode: ChannelMode::Channel(0),
        center: true,
    };
    // padded: [0,0,1,2,3,4,5,0,0] (9 samples); full frames start at 0, 2, 4
    let (frames, n_frames) = frame_signal(&x, 0, &cfg);
    assert_eq!(n_frames, 3);
    assert_eq!(frames, vec![0, 0, 1, 2, 1, 2, 3, 4, 3, 4, 5, 0]);
}

#[test]
fn frame_signal_too_short_for_one_frame() {
    let x: Vec<u32> = vec![7, 8];
    let cfg = FrameConfig {
        frame_size: 4,
        hop_size: 1,
        window: Window::Rectangular,
        padding: Padding::NoPad,
        channel_mode: ChannelMode::Channel(0),
        center: false,
    };
    let (frames, n_frames) = frame_signal(&x, 0, &cfg);
    assert_eq!(n_frames, 0);
    assert!(frames.is_empty());
}

#[test]
fn extract_second_channel_of_three() {
    let samples: Vec<i32> = vec![1, 2, 3, 4, 5, 6, 7, 8, 9];
    assert_eq!(extract_channel(&samples, 3, 1).unwrap(), vec![2, 5, 8]);
    assert_eq!(extract_channel(&samples, 3, 2).unwrap(), vec![3, 6, 9]);
}

#[test]
fn extract_channel_out_of_range() {
    let samples: Vec<i32> = vec![1, 2, 3, 4];
    assert!(matches!(
        extract_channel(&samples, 2, 2),
        Err(SignalError::ChannelOutOfRange { requested: 2, available: 2 })
    ));
    // an empty buffer still reports the missing channel
    let empty: Vec<i32> = Vec::new();
    assert!(matches!(
        extract_channel(&empty, 1, 3),
        Err(SignalError::ChannelOutOfRange { requested: 3, available: 1 })
    ));
    assert!(extract_channel(&empty, 1, 0).unwrap().is_empty());
}

#[test]
fn frame_count_formulas() {
    // fully contained frames: starts 0, 512, 1024 for 3000 samples of 2048? only 0 and 512 (512+2048=2560<=3000, 1024+2048=3072>3000)
    assert_eq!(compute_frame_count(3000, 2048, 512, Padding::NoPad), (2, 2560));
    assert_eq!(compute_frame_count(100, 2048, 512, Padding::NoPad), (0, 0));
    // zero padded: starts 0, 512, ..., 2560 (<= 2999)
    assert_eq!(compute_frame_count(3000, 2048, 512, Padding::ZeroPadEnd), (6, 4608));
    assert_eq!(compute_frame_count(0, 2048, 512, Padding::ZeroPadEnd), (0, 0));
    assert_eq!(compute_frame_count(4, 2, 1, Padding::NoPad), (3, 4));
}

#[test]
fn presets() {
    let s = FrameConfig::standard();
    assert_eq!((s.frame_size, s.hop_size), (2048, 512));
    assert_eq!(s.channel_mode, ChannelMode::MixDownAverage);
    assert!(s.center);
    let m = FrameConfig::music();
    assert_eq!((m.frame_size, m.hop_size), (4096, 1024));
    assert_eq!(m.window, Window::Hann);
    let sp = FrameConfig::speech();
    assert_eq!((sp.frame_size, sp.hop_size), (512, 256));
    assert_eq!(sp.padding, Padding::ZeroPadEnd);
    let d = FrameConfig::default();
    assert_eq!(d.channel_mode, ChannelMode::Channel(0));
    assert_eq!((d.frame_size, d.hop_size), (2048, 512));
}

#[test]
fn config_errors() {
    let mut cfg = FrameConfig::default();
    cfg.frame_size = 0;
    match validate_config(&cfg) {
        Err(SignalError::InvalidConfig(m)) => assert_eq!(m, "frame_size must be > 0"),
        other => panic!("unexpected {:?}", other),
    }
    let mut cfg = FrameConfig::default();
    cfg.hop_size = 0;
    match validate_config(&cfg) {
        Err(SignalError::InvalidConfig(m)) => assert_eq!(m, "hop_size must be > 0"),
        other => panic!("unexpected {:?}", other),
    }
    assert!(validate_config(&FrameConfig::default()).is_ok());
}

#[test]
fn input_errors_in_order() {
    let cfg = FrameConfig::default();
    assert!(matches!(check_frame_input(0, 2, &cfg), Err(SignalError::EmptyBuffer)));
    match check_frame_input(8, 0, &cfg) {
        Err(SignalError::InvalidConfig(m)) => assert_eq!(m, "audio.channels must be > 0"),
        other => panic!("unexpected {:?}", other),
    }
    match check_frame_input(7, 2, &cfg) {
        Err(SignalError::InvalidConfig(m)) => {
            assert_eq!(m, "audio.samples length must be divisible by audio.channels")
        }
        other => panic!("unexpected {:?}", other),
    }
    let mut cfg3 = FrameConfig::default();
    cfg3.channel_mode = ChannelMode::Channel(3);
    assert!(matches!(
        check_frame_input(8, 2, &cfg3),
        Err(SignalError::ChannelOutOfRange { requested: 3, available: 2 })
    ));
    let mut mix = FrameConfig::default();
    mix.channel_mode = ChannelMode::MixDownAverage;
    assert!(check_frame_input(8, 2, &mix).is_ok());
    // configuration is checked before the buffer
    let mut bad = FrameConfig::default();
    bad.hop_size = 0;
    assert!(matches!(check_frame_input(0, 0, &bad), Err(SignalError::InvalidConfig(_))));
}

#[test]
fn rows_of_a_frame_matrix() {
    let data: Vec<u8> = vec![1, 2, 3, 4, 5, 6];
    assert_eq!(rsona::signal::frame_row(&data, 2, 3, 1), Some(&[3u8, 4][..]));
    assert_eq!(rsona::signal::frame_row(&data, 2, 3, 2), Some(&[5u8, 6][..]));
    assert_eq!(rsona::signal::frame_row(&data, 2, 3, 3), None);
    assert_eq!(rsona::signal::frame_row(&data, 3, 2, 1), Some(&[4u8, 5, 6][..]));
}

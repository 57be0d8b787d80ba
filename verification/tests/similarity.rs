use rsona::similarity::{
    lag_range, repeat_phase_range, LagAggregation, LagEnergyConfig, RepeatPhaseConfig,
    RepetitionAggregation, RepetitionConfig, build_checkerboard_signs,
};

#[test]
fn lag_range_capped_by_matrix() {
    let cfg = LagEnergyConfig::default();
    assert_eq!(lag_range(1000, &cfg), (20, 800));
    assert_eq!(lag_range(100, &cfg), (20, 99));
    assert_eq!(lag_range(10, &cfg), (9, 9));
    assert_eq!(lag_range(0, &cfg), (20, 800));
}

#[test]
fn phase_range() {
    let cfg = RepeatPhaseConfig::default();
    assert_eq!(repeat_phase_range(100, 40, &cfg), Some(52));
    assert_eq!(repeat_phase_range(100, 0, &cfg), None);
    assert_eq!(repeat_phase_range(100, 100, &cfg), None);
    assert_eq!(repeat_phase_range(48, 40, &cfg), None);
    let one = RepeatPhaseConfig { window: 0, smooth: None };
    assert_eq!(repeat_phase_range(48, 40, &one), Some(7));
}

#[test]
fn defaults() {
    let c = LagEnergyConfig::default();
    assert_eq!(c.aggregation, LagAggregation::Mean);
    assert_eq!(c.smooth_lags, Some(7));
    assert!(c.mean_center);
    let p = RepeatPhaseConfig::default();
    assert_eq!((p.window, p.smooth), (8, Some(5)));
    let r = RepetitionConfig::default();
    assert_eq!(r.min_lag_frames, 20);
    assert_eq!(r.aggregation, RepetitionAggregation::Max);
    assert_eq!(r.smooth, Some(7));
}

#[test]
fn checkerboard_signs_quadrants() {
    // 4x4 kernel split at 2: upper-left and lower-right are positive.
    let signs = build_checkerboard_signs(4, 2);
    let expected = vec![
        true, true, false, false, //
        true, true, false, false, //
        false, false, true, true, //
        false, false, true, true,
    ];
    assert_eq!(signs, expected);
}

#[test]
fn checkerboard_signs_empty_and_offcenter() {
    assert!(build_checkerboard_signs(0, 0).is_empty());
    // split at 1 in a 3x3 kernel
    let signs = build_checkerboard_signs(3, 1);
    assert_eq!(
        signs,
        vec![true, false, false, false, true, true, false, true, true]
    );
}

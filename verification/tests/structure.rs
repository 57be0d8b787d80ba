use rsona::structure::{
    accept_extension, guard_boundaries, lag_admissible, long_enough_for_loop, segment_samples, loop_pair_search_plan, next_repeat_end,
    refine_loop_bounds, repetition_sample_step, snap_to_nearest, valid_beat_pairs,
    LoopPreference, SegmentKind,
};

#[test]
fn test_loop_preference_default() {
    let pref = LoopPreference::default();
    assert!(matches!(pref, LoopPreference::Similarity));
}

#[test]
fn snap_picks_nearest_within_radius() {
    let points = vec![10, 20, 30];
    assert_eq!(snap_to_nearest(&points, 22, 5), Some(20));
    assert_eq!(snap_to_nearest(&points, 27, 5), Some(30));
    assert_eq!(snap_to_nearest(&points, 15, 4), None);
    // tie: the earlier point wins
    assert_eq!(snap_to_nearest(&points, 15, 5), Some(10));
    assert_eq!(snap_to_nearest(&vec![], 15, 100), None);
}

#[test]
fn refine_without_snapping_keeps_detected_loop() {
    let none: Vec<usize> = vec![];
    // n=1000, lag=200, loop [100, 300), one repeat, exhaustive search
    let r = refine_loop_bounds(1000, 200, 30, 100, 300, 1, true, &none, true, 24, &none, true, 4);
    assert_eq!(r, (100, 300, false));
}

#[test]
fn refine_snaps_to_sections_then_beats() {
    let sections = vec![90, 310];
    let beats = vec![88, 312];
    let r = refine_loop_bounds(1000, 200, 30, 100, 300, 1, true, &sections, true, 24, &beats, true, 4);
    assert_eq!(r, (88, 312, false));
}

#[test]
fn refine_reverts_collapsed_snap() {
    // both ends snap to the same section boundary: revert to [phase, phase + lag)
    let sections = vec![200];
    let none: Vec<usize> = vec![];
    let r = refine_loop_bounds(1000, 200, 30, 190, 210, 1, true, &sections, true, 24, &none, false, 4);
    assert_eq!(r.0, 190);
    // the reverted end (390) is long enough and not shrunk
    assert_eq!(r.1, 390);
}

#[test]
fn refine_restores_detected_end_when_shrunk() {
    // end snaps from 400 down to 320: length 220 < 3/4 * 300, so the detected end returns
    let sections = vec![320];
    let none: Vec<usize> = vec![];
    let r = refine_loop_bounds(1000, 300, 30, 100, 400, 1, true, &sections, true, 100, &none, false, 4);
    assert_eq!((r.0, r.1), (100, 400));
}

#[test]
fn refine_prefers_single_period_with_short_outro() {
    // phase search, 3 repeats ending at 980 of 1000: outro 20 < 50 = lag/4,
    // one period [100, 300) leaves 700 frames
    let none: Vec<usize> = vec![];
    let r = refine_loop_bounds(1000, 200, 30, 100, 980, 3, false, &none, false, 0, &none, false, 0);
    assert_eq!(r, (100, 300, false));
}

#[test]
fn refine_asks_for_probe_on_long_outro() {
    let none: Vec<usize> = vec![];
    // loop [0, 100), outro 900 > 150
    let r = refine_loop_bounds(1000, 100, 30, 0, 100, 1, false, &none, false, 0, &none, false, 0);
    assert_eq!(r, (0, 100, true));
    // exhaustive search never probes
    let r = refine_loop_bounds(1000, 100, 30, 0, 100, 1, true, &none, false, 0, &none, false, 0);
    assert_eq!(r, (0, 100, false));
}

#[test]
fn extension_needs_more_repeats_and_an_outro() {
    assert_eq!(accept_extension(1000, 100, 100, 1, 500, 5), 500);
    assert_eq!(accept_extension(1000, 100, 100, 1, 990, 9), 100);
    assert_eq!(accept_extension(1000, 100, 100, 1, 500, 1), 100);
}

#[test]
fn loop_bounds_tile_the_track() {
    let sections = vec![95, 305, 700];
    let beats = vec![0, 96, 200, 304, 400];
    let (s, e, probe) =
        refine_loop_bounds(1000, 200, 30, 100, 300, 1, true, &sections, true, 24, &beats, true, 4);
    // sections move the loop to (95, 305), beats then to (96, 304)
    assert_eq!((s, e, probe), (96, 304, false));
    assert!(s <= e && e <= 1000);
}

#[test]
fn wide_snapping_radii_can_reverse_the_loop() {
    // The radii (10 + 25) exceed the detected loop length (10): sections move
    // the loop to (5, 28), beats to (26, 29), and the shrink guard then puts
    // back the detected end 20, before the start.
    let sections = vec![5, 28];
    let beats = vec![26, 29];
    let r = refine_loop_bounds(100, 10, 0, 10, 20, 1, false, &sections, true, 10, &beats, true, 25);
    assert_eq!(r, (26, 20, true));
}

#[test]
fn beat_pairs_respect_length_limits() {
    let beats = vec![0, 10, 20, 30];
    // hop 100: lengths between beats are multiples of 1000 samples
    let pairs = valid_beat_pairs(&beats, 4, 100, 2000, Some(2000));
    assert_eq!(pairs, vec![(0, 2), (1, 3)]);
    let pairs = valid_beat_pairs(&beats, 4, 100, 2000, None);
    assert_eq!(pairs, vec![(0, 2), (0, 3), (1, 3)]);
    // only the first three beats have features
    let pairs = valid_beat_pairs(&beats, 3, 100, 1000, None);
    assert_eq!(pairs, vec![(0, 1), (0, 2), (1, 2)]);
}

#[test]
fn snapping_a_boundary_keeps_it() {
    let points = vec![40, 10, 25, 10];
    for &p in &points {
        assert_eq!(snap_to_nearest(&points, p, 0), Some(p));
        assert_eq!(snap_to_nearest(&points, p, 7), Some(p));
    }
}

#[test]
fn section_guard_drops_edges() {
    let idx = vec![3, 8, 50, 91, 92, 99];
    assert_eq!(guard_boundaries(&idx, 8, 100), vec![8, 50, 91]);
    assert_eq!(guard_boundaries(&idx, 0, 100), idx);
    assert_eq!(guard_boundaries(&idx, 60, 100), Vec::<usize>::new());
}

#[test]
fn repetition_probe_steps() {
    // another period of 100 fits and leaves 300 >= 25
    assert_eq!(next_repeat_end(1000, 100, 600), Some(700));
    // fits but leaves only 20 < 25
    assert_eq!(next_repeat_end(1000, 100, 880), None);
    // does not fit
    assert_eq!(next_repeat_end(1000, 100, 950), None);
    // 200 / max(20, 5) = 10; 40 / max(4, 5) = 8; 3 / 5 = 0 -> 1
    assert_eq!(repetition_sample_step(200), 10);
    assert_eq!(repetition_sample_step(40), 8);
    assert_eq!(repetition_sample_step(3), 1);
}

#[test]
fn exhaustive_search_plan() {
    // min outro 50, max start 1000 - 250 = 750, step 10
    assert_eq!(loop_pair_search_plan(1000, 200, 30), Some((750, 10)));
    // min outro 300, step 30
    assert_eq!(loop_pair_search_plan(10000, 3000, 30), Some((6700, 30)));
    // step capped at 50
    assert_eq!(loop_pair_search_plan(100000, 8000, 30), Some((91200, 50)));
    // too short: fall back
    assert_eq!(loop_pair_search_plan(260, 200, 30), None);
}

#[test]
fn beat_pairs_with_zero_hop_accept_any_order() {
    // With a zero hop every loop has length 0, whatever the beat order.
    let beats = vec![5usize, 3, 1];
    assert_eq!(valid_beat_pairs(&beats, 3, 0, 0, None), vec![(0, 1), (0, 2), (1, 2)]);
    assert!(valid_beat_pairs(&beats, 3, 0, 1, None).is_empty());
}

#[test]
fn segment_kinds_are_distinct() {
    assert_ne!(SegmentKind::Intro, SegmentKind::Loop);
    assert_ne!(SegmentKind::Loop, SegmentKind::Outro);
    assert_eq!(SegmentKind::Outro, SegmentKind::Outro);
}

#[test]
fn loop_search_guards() {
    assert!(!long_enough_for_loop(0));
    assert!(!long_enough_for_loop(1));
    assert!(long_enough_for_loop(2));
    assert!(lag_admissible(100, 30, 30));
    assert!(!lag_admissible(100, 29, 30));
    assert!(!lag_admissible(100, 100, 30));
    assert!(lag_admissible(100, 99, 0));
}

#[test]
fn segment_sample_offsets() {
    assert_eq!(segment_samples(0, 10, 512), (0, 5120));
    assert_eq!(segment_samples(3, 7, 256), (768, 1792));
    assert_eq!(segment_samples(4, 4, 0), (0, 0));
}

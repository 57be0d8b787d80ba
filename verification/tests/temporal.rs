use rsona::temporal::{
    beat_grid, beat_intervals, neighborhood, select_separated, sorted_unique_frames, tempo_candidates,
    AggregationMethod, SyncConfig,
};

#[test]
fn grid_from_phase_and_period() {
    assert_eq!(beat_grid(3, 10, 35), vec![3, 13, 23, 33]);
    assert_eq!(beat_grid(0, 5, 10), vec![0, 5]);
    assert_eq!(beat_grid(12, 5, 10), Vec::<usize>::new());
}

#[test]
fn snapped_beats_sorted_and_deduplicated() {
    assert_eq!(sorted_unique_frames(vec![13, 3, 13, 24, 3]), vec![3, 13, 24]);
    assert_eq!(sorted_unique_frames(vec![]), Vec::<usize>::new());
}

#[test]
fn beat_intervals_midpoints() {
    // beats at 0, 3, 6, 9 over 10 frames
    let beats = vec![0, 3, 6, 9];
    let iv = beat_intervals(&beats, 10, &SyncConfig::default());
    assert_eq!(iv, vec![(0, 1), (1, 4), (4, 7), (7, 10)]);
    let cfg = SyncConfig { method: AggregationMethod::Max, pad_end: false };
    let iv = beat_intervals(&beats, 10, &cfg);
    assert_eq!(iv[3], (7, 10));
    let iv = beat_intervals(&vec![0, 3], 20, &cfg);
    assert_eq!(iv, vec![(0, 1), (1, 4)]);
}

#[test]
fn beat_intervals_clamped_to_frames() {
    let iv = beat_intervals(&vec![2, 40], 10, &SyncConfig::default());
    assert_eq!(iv, vec![(0, 10), (10, 10)]);
}

#[test]
fn sync_defaults() {
    let c = SyncConfig::default();
    assert_eq!(c.method, AggregationMethod::Mean);
    assert!(c.pad_end);
    assert_eq!(AggregationMethod::default(), AggregationMethod::Mean);
}

#[test]
fn octave_candidates_in_range() {
    // raw 20 within [10, 60]: 20, 40, 60, then 10 (20/2); 80 and 6 are out
    assert_eq!(tempo_candidates(20, 10, 60), vec![20, 40, 60, 10]);
    assert_eq!(tempo_candidates(30, 10, 60), vec![30, 60, 15, 10]);
    assert_eq!(tempo_candidates(1, 1, 1), vec![1]);
}

#[test]
fn spacing_keeps_strongest_first() {
    // candidates by decreasing height at frames 50, 52, 10, 45, 60
    let keep = select_separated(&vec![50, 52, 10, 45, 60], 5);
    assert_eq!(keep, vec![true, false, true, true, true]);
    let keep = select_separated(&vec![50, 52, 10, 45, 60], 1);
    assert_eq!(keep, vec![true, true, true, true, true]);
}

#[test]
fn kept_peaks_are_spaced() {
    let cands = vec![30, 31, 29, 40, 35, 20, 45, 25];
    let keep = select_separated(&cands, 5);
    assert!(keep[0]);
    for i in 0..cands.len() {
        for j in i + 1..cands.len() {
            if keep[i] && keep[j] {
                assert!(cands[i].abs_diff(cands[j]) >= 5);
            }
        }
    }
    assert_eq!(keep, vec![true, false, false, true, true, true, true, true]);
}

#[test]
fn dropped_peaks_sit_near_a_kept_one() {
    let cands = vec![30, 31, 29, 40, 35, 20, 45, 25, 33];
    let keep = select_separated(&cands, 5);
    for j in 0..cands.len() {
        if !keep[j] {
            assert!((0..j).any(|i| keep[i] && cands[j].abs_diff(cands[i]) < 5));
        }
    }
    assert!(!keep[8]);
}

#[test]
fn neighborhoods_clip_to_signal() {
    assert_eq!(neighborhood(5, 2, 10), (3, 8));
    assert_eq!(neighborhood(1, 2, 10), (0, 4));
    assert_eq!(neighborhood(9, 2, 10), (7, 10));
    assert_eq!(neighborhood(0, 0, 1), (0, 1));
}

#[test]
fn intervals_tile_for_sorted_beats() {
    let beats = vec![1, 4, 4, 10, 17];
    let iv = beat_intervals(&beats, 20, &SyncConfig::default());
    assert_eq!(iv[0].0, 0);
    for k in 0..iv.len() - 1 {
        assert_eq!(iv[k].1, iv[k + 1].0);
    }
    assert_eq!(iv[iv.len() - 1].1, 20);
}

#[test]
fn intervals_need_not_tile_for_unsorted_beats() {
    // Decreasing beats: the middle interval is empty at 15 while the last
    // one starts back at 5.
    let iv = beat_intervals(&[20, 10, 0], 100, &SyncConfig::default());
    assert_eq!(iv, vec![(0, 15), (15, 15), (5, 100)]);
}

//! Loop-boundary decisions of the intro / loop / outro segmentation.
//!
//! The similarity measurements (repeat lag, loop phase, section boundaries,
//! beat grid, repetition probing) are computed elsewhere and handed in as
//! frame indices; this module decides where the loop starts and ends.
use vstd::prelude::*;

verus! {

/// Segmentation kind.
#[derive(Debug, Clone, Copy, PartialEq, Eq, Structural)]
pub enum SegmentKind {
    /// Intro segment
    Intro,
    /// Loop segment
    Loop,
    /// Outro segment
    Outro,
}

/// Whether a track of `n` frames is long enough to look for a loop at all.
pub fn long_enough_for_loop(n: usize) -> (r: bool)
    ensures
        r == (n >= 2),
{
    n >= 2
}

/// Whether the estimated repeat period `lag` can be a loop of an `n`-frame
/// track: at least `min_loop_frames` long and shorter than the track.
pub fn lag_admissible(n: usize, lag: usize, min_loop_frames: usize) -> (r: bool)
    ensures
        r == (min_loop_frames <= lag && lag < n),
{
    !(lag < min_loop_frames || lag >= n)
}

/// The sample range `(start_frame * hop, end_frame * hop)` of the segment
/// spanning frames `[start_frame, end_frame)`.
pub fn segment_samples(start_frame: usize, end_frame: usize, hop: usize) -> (r: (usize, usize))
    requires
        start_frame * hop <= usize::MAX,
        end_frame * hop <= usize::MAX,
    ensures
        r.0 == start_frame * hop,
        r.1 == end_frame * hop,
{
    (start_frame * hop, end_frame * hop)
}

/// Distance between two frame indices.
pub open spec fn dist(a: int, b: int) -> int {
    if a > b {
        a - b
    } else {
        b - a
    }
}

/// `points[i]` is the first point, among `points[..bound]`, at the smallest
/// distance from `x`, and that distance is at most `radius`.
pub open spec fn first_nearest(points: Seq<usize>, bound: int, x: int, radius: int, i: int) -> bool {
    &&& 0 <= i < bound
    &&& dist(points[i] as int, x) <= radius
    &&& forall|j: int|
        0 <= j < i ==> dist(#[trigger] points[j] as int, x) > dist(points[i] as int, x)
    &&& forall|j: int|
        0 <= j < bound && dist(#[trigger] points[j] as int, x) <= radius ==> dist(
            points[j] as int,
            x,
        ) >= dist(points[i] as int, x)
}

/// The nearest point to `x` within `radius`, the earliest one on ties.
pub open spec fn nearest_within(points: Seq<usize>, x: int, radius: int) -> Option<usize> {
    if exists|i: int| first_nearest(points, points.len() as int, x, radius, i) {
        Some(points[choose|i: int| first_nearest(points, points.len() as int, x, radius, i)])
    } else {
        None
    }
}

proof fn lemma_first_nearest_unique(
    points: Seq<usize>,
    bound: int,
    x: int,
    radius: int,
    i1: int,
    i2: int,
)
    requires
        first_nearest(points, bound, x, radius, i1),
        first_nearest(points, bound, x, radius, i2),
    ensures
        i1 == i2,
{
    if i1 < i2 {
        assert(dist(points[i1] as int, x) > dist(points[i2] as int, x));
    } else if i2 < i1 {
        assert(dist(points[i2] as int, x) > dist(points[i1] as int, x));
    }
}

/// Snap `x` to the nearest point within `radius` (earliest on ties), or
/// `None` when no point is that close.
pub fn snap_to_nearest(points: &[usize], x: usize, radius: usize) -> (r: Option<usize>)
    ensures
        r == nearest_within(points@, x as int, radius as int),
        r is None <==> forall|j: int|
            0 <= j < points.len() ==> dist(#[trigger] points@[j] as int, x as int) > radius,
        r matches Some(p) ==> points@.contains(p) && dist(p as int, x as int) <= radius,
{
    let ghost pts = points@;
    let ghost xi = x as int;
    let ghost ri = radius as int;
    // (index, distance) of the best point so far
    let mut best: Option<(usize, usize)> = None;
    let mut k: usize = 0;
    while k < points.len()
        invariant
            pts == points@,
            xi == x as int,
            ri == radius as int,
            k <= points.len(),
            best is None ==> forall|j: int| 0 <= j < k ==> dist(#[trigger] pts[j] as int, xi) > ri,
            best matches Some(b) ==> b.1 as int == dist(pts[b.0 as int] as int, xi)
                && first_nearest(pts, k as int, xi, ri, b.0 as int),
        decreases points.len() - k,
    {
        let p = points[k];
        let d = if p > x {
            p - x
        } else {
            x - p
        };
        if d <= radius {
            match best {
                None => {
                    best = Some((k, d));
                },
                Some((bi, bd)) => {
                    if d < bd {
                        best = Some((k, d));
                    }
                },
            }
        }
        k += 1;
    }
    match best {
        None => {
            assert(!exists|i: int| first_nearest(pts, pts.len() as int, xi, ri, i));
            None
        },
        Some((bi, _)) => {
            assert forall|i: int| first_nearest(pts, pts.len() as int, xi, ri, i) implies i
                == bi by {
                lemma_first_nearest_unique(pts, pts.len() as int, xi, ri, i, bi as int);
            }
            let ghost c = choose|i: int| first_nearest(pts, pts.len() as int, xi, ri, i);
            assert(first_nearest(pts, pts.len() as int, xi, ri, bi as int));
            assert(c == bi);
            assert(pts.contains(pts[bi as int]));
            Some(points[bi])
        },
    }
}

/// `x` moved to its nearest point within `radius`, or left in place.
pub open spec fn snap_point(points: Seq<usize>, x: int, radius: int) -> int {
    match nearest_within(points, x, radius) {
        Some(p) => p as int,
        None => x,
    }
}

/// Both loop ends snapped to the given points; when that leaves fewer than
/// two frames in the loop, the fallback bounds are used instead. Nothing
/// moves when snapping is disabled or there are no points.
pub open spec fn snapped_bounds(
    points: Seq<usize>,
    enabled: bool,
    start: int,
    end: int,
    radius: int,
    fallback_start: int,
    fallback_end: int,
) -> (int, int) {
    if enabled && points.len() > 0 {
        let s = snap_point(points, start, radius);
        let e = snap_point(points, end, radius);
        if e <= s + 1 {
            (fallback_start, fallback_end)
        } else {
            (s, e)
        }
    } else {
        (start, end)
    }
}

/// Saturating subtraction on naturals.
pub open spec fn sat_sub(a: int, b: int) -> int {
    if a > b {
        a - b
    } else {
        0
    }
}

/// The loop bounds after clamping, the guards against over-eager snapping,
/// and the outro heuristics, with whether a second, looser repetition probe
/// is wanted.
///
/// - The loop is clamped into `[0, n]`.
/// - A loop shorter than `min_loop_frames` reverts to the detected bounds.
/// - A loop that shrank below three quarters of the detected length gets the
///   detected end back.
/// - With several detected repeats (phase search), a single period is
///   preferred when it leaves an outro of at least a quarter period and the
///   current one does not.
/// - With one detected repeat (phase search), an outro longer than one and a
///   half loops asks for a looser repetition probe.
pub open spec fn settled_bounds(
    n: int,
    lag: int,
    min_loop_frames: int,
    phase_start: int,
    detected_end: int,
    num_repeats: int,
    exhaustive: bool,
    start: int,
    end: int,
) -> (int, int, bool) {
    let s1 = if start < n {
        start
    } else {
        n
    };
    let e0 = if end < n {
        end
    } else {
        n
    };
    let e1 = if e0 > s1 {
        e0
    } else {
        s1
    };
    let s2 = if e1 - s1 < min_loop_frames {
        phase_start
    } else {
        s1
    };
    let e2 = if e1 - s1 < min_loop_frames {
        detected_end
    } else {
        e1
    };
    let snapped_len = sat_sub(e2, s2);
    let detected_len = detected_end - phase_start;
    let e3 = if snapped_len > 0 && detected_len > 0 && 4 * snapped_len < 3 * detected_len {
        detected_end
    } else {
        e2
    };
    let outro_len = sat_sub(n, e3);
    let loop_len = sat_sub(e3, s2);
    let e4 = if num_repeats > 1 && !exhaustive && outro_len < lag / 4 && sat_sub(n, s2 + lag) >= lag
        / 4 {
        s2 + lag
    } else {
        e3
    };
    let probe = outro_len > loop_len + loop_len / 2 && num_repeats == 1 && !exhaustive;
    (s2, e4, probe)
}

/// The whole refinement: section snapping, beat snapping, then settling.
pub open spec fn refined_bounds(
    n: int,
    lag: int,
    min_loop_frames: int,
    phase_start: int,
    detected_end: int,
    num_repeats: int,
    exhaustive: bool,
    section_frames: Seq<usize>,
    snap_sections: bool,
    section_radius: int,
    beat_frames: Seq<usize>,
    snap_beats: bool,
    beat_radius: int,
) -> (int, int, bool) {
    let a = snapped_bounds(
        section_frames,
        snap_sections,
        phase_start,
        detected_end,
        section_radius,
        phase_start,
        phase_start + lag,
    );
    let b = snapped_bounds(
        beat_frames,
        snap_beats,
        a.0,
        a.1,
        beat_radius,
        phase_start,
        phase_start + lag,
    );
    settled_bounds(
        n,
        lag,
        min_loop_frames,
        phase_start,
        detected_end,
        num_repeats,
        exhaustive,
        b.0,
        b.1,
    )
}

/// The loop after section and then beat snapping, clamped into `[0, n]`
/// and never reversed: the loop that the settling guards start from.
pub open spec fn snapped_loop(
    n: int,
    lag: int,
    phase_start: int,
    detected_end: int,
    section_frames: Seq<usize>,
    snap_sections: bool,
    section_radius: int,
    beat_frames: Seq<usize>,
    snap_beats: bool,
    beat_radius: int,
) -> (int, int) {
    let a = snapped_bounds(
        section_frames,
        snap_sections,
        phase_start,
        detected_end,
        section_radius,
        phase_start,
        phase_start + lag,
    );
    let b = snapped_bounds(
        beat_frames,
        snap_beats,
        a.0,
        a.1,
        beat_radius,
        phase_start,
        phase_start + lag,
    );
    let s = if b.0 < n {
        b.0
    } else {
        n
    };
    let e = if b.1 < n && b.1 > s {
        b.1
    } else if b.1 < n {
        s
    } else {
        n
    };
    (s, e)
}

/// How the settling guards act on a loop `[start, end)` handed in by the
/// snapping (the refined loop is `settled_bounds` of the snapped loop):
/// - after clamping into `[0, n]`, a loop shorter than `min_loop_frames` is
///   replaced by the detected loop `[phase_start, detected_end)`; the result
///   starts where that loop starts;
/// - when that loop is non-empty and under three quarters of the detected
///   length, it ends at `detected_end` instead;
/// - with several repeats and no exhaustive search, when that leaves an outro
///   under a quarter period while one period from the start would leave at
///   least that much, the loop is one period long;
/// - the probe is asked for exactly when there is one repeat, no exhaustive
///   search, and the outro is more than one and a half loop lengths.
pub proof fn settled_loop_laws(
    n: int,
    lag: int,
    min_loop_frames: int,
    phase_start: int,
    detected_end: int,
    num_repeats: int,
    exhaustive: bool,
    start: int,
    end: int,
)
    requires
        0 <= phase_start <= detected_end <= n,
        lag >= 0,
        start >= 0,
        end >= 0,
    ensures
        ({
            let r = settled_bounds(
                n,
                lag,
                min_loop_frames,
                phase_start,
                detected_end,
                num_repeats,
                exhaustive,
                start,
                end,
            );
            let s1 = if start < n {
                start
            } else {
                n
            };
            let e1 = if end < n && end > s1 {
                end
            } else if end < n {
                s1
            } else {
                n
            };
            let short = e1 - s1 < min_loop_frames;
            let s2 = if short {
                phase_start
            } else {
                s1
            };
            let e2 = if short {
                detected_end
            } else {
                e1
            };
            let shrunk = e2 > s2 && detected_end > phase_start && 4 * (e2 - s2) < 3 * (
            detected_end - phase_start);
            let e3 = if shrunk {
                detected_end
            } else {
                e2
            };
            let single = num_repeats > 1 && !exhaustive && n - e3 < lag / 4 && (if n > s2 + lag {
                n - (s2 + lag)
            } else {
                0
            }) >= lag / 4;
            &&& r.0 == s2
            &&& r.1 == if single {
                s2 + lag
            } else {
                e3
            }
            &&& r.2 <==> (num_repeats == 1 && !exhaustive && 2 * (n - r.1) > 3 * (if r.1 > r.0 {
                r.1 - r.0
            } else {
                0
            }))
        }),
{
}

/// A snapped loop shorter than `min_loop_frames` is dropped: the refined
/// loop starts at `phase_start` again, and, unless the single-period rule of
/// the phase search applies (several repeats, no exhaustive search), ends at
/// `detected_end`. A snapped loop that is long enough keeps its start.
pub proof fn short_snapped_loop_reverts(
    n: int,
    lag: int,
    min_loop_frames: int,
    phase_start: int,
    detected_end: int,
    num_repeats: int,
    exhaustive: bool,
    section_frames: Seq<usize>,
    snap_sections: bool,
    section_radius: int,
    beat_frames: Seq<usize>,
    snap_beats: bool,
    beat_radius: int,
)
    requires
        0 <= phase_start <= detected_end <= n,
        lag >= 0,
    ensures
        ({
            let (s0, e0) = snapped_loop(
                n,
                lag,
                phase_start,
                detected_end,
                section_frames,
                snap_sections,
                section_radius,
                beat_frames,
                snap_beats,
                beat_radius,
            );
            let r = refined_bounds(
                n,
                lag,
                min_loop_frames,
                phase_start,
                detected_end,
                num_repeats,
                exhaustive,
                section_frames,
                snap_sections,
                section_radius,
                beat_frames,
                snap_beats,
                beat_radius,
            );
            &&& e0 - s0 < min_loop_frames ==> r.0 == phase_start
            &&& e0 - s0 < min_loop_frames && (num_repeats <= 1 || exhaustive) ==> r.1
                == detected_end
            &&& e0 - s0 >= min_loop_frames ==> r.0 == s0
        }),
{
}

proof fn lemma_snap_point_close(points: Seq<usize>, x: int, radius: int)
    ensures
        radius >= 0 ==> dist(snap_point(points, x, radius), x) <= radius,
{
    if exists|i: int| first_nearest(points, points.len() as int, x, radius, i) {
        let i = choose|i: int| first_nearest(points, points.len() as int, x, radius, i);
        assert(first_nearest(points, points.len() as int, x, radius, i));
    }
}

/// When the two snapping radii together do not exceed the length of the
/// detected loop, the refined loop lies inside the track and is not
/// reversed: `0 <= loop_start <= loop_end <= n`. The intro `[0, loop_start)`,
/// the loop `[loop_start, loop_end)` and the outro `[loop_end, n)` then tile
/// the track.
pub proof fn refined_loop_within_track(
    n: int,
    lag: int,
    min_loop_frames: int,
    phase_start: int,
    detected_end: int,
    num_repeats: int,
    exhaustive: bool,
    section_frames: Seq<usize>,
    snap_sections: bool,
    section_radius: int,
    beat_frames: Seq<usize>,
    snap_beats: bool,
    beat_radius: int,
)
    requires
        0 <= phase_start <= detected_end <= n,
        lag >= 0,
        section_radius >= 0,
        beat_radius >= 0,
        section_radius + beat_radius <= detected_end - phase_start,
    ensures
        ({
            let r = refined_bounds(
                n,
                lag,
                min_loop_frames,
                phase_start,
                detected_end,
                num_repeats,
                exhaustive,
                section_frames,
                snap_sections,
                section_radius,
                beat_frames,
                snap_beats,
                beat_radius,
            );
            0 <= r.0 <= r.1 <= n
        }),
{
    lemma_snap_point_close(section_frames, phase_start, section_radius);
    lemma_snap_point_close(section_frames, detected_end, section_radius);
    let a = snapped_bounds(
        section_frames,
        snap_sections,
        phase_start,
        detected_end,
        section_radius,
        phase_start,
        phase_start + lag,
    );
    assert(phase_start <= a.0 + section_radius || a.0 == phase_start);
    assert(a.0 <= phase_start + section_radius);
    lemma_snap_point_close(beat_frames, a.0, beat_radius);
    lemma_snap_point_close(beat_frames, a.1, beat_radius);
    let b = snapped_bounds(beat_frames, snap_beats, a.0, a.1, beat_radius, phase_start, phase_start + lag);
    assert(b.0 <= phase_start + section_radius + beat_radius);
    assert(b.0 >= 0) by {
        assert(a.0 >= 0) by {
            if exists|i: int| first_nearest(section_frames, section_frames.len() as int, phase_start, section_radius, i) {
                let i = choose|i: int| first_nearest(section_frames, section_frames.len() as int, phase_start, section_radius, i);
                assert(first_nearest(section_frames, section_frames.len() as int, phase_start, section_radius, i));
            }
        }
        if exists|i: int| first_nearest(beat_frames, beat_frames.len() as int, a.0, beat_radius, i) {
            let i = choose|i: int| first_nearest(beat_frames, beat_frames.len() as int, a.0, beat_radius, i);
            assert(first_nearest(beat_frames, beat_frames.len() as int, a.0, beat_radius, i));
        }
    }
}

fn snap_bounds(
    points: &Vec<usize>,
    enabled: bool,
    start: usize,
    end: usize,
    radius: usize,
    fallback_start: usize,
    fallback_end: usize,
) -> (r: (usize, usize))
    requires
        start < usize::MAX,
        fallback_start < usize::MAX,
        forall|j: int| 0 <= j < points.len() ==> #[trigger] points@[j] < usize::MAX,
    ensures
        r.0 < usize::MAX,
        (r.0 as int, r.1 as int) == snapped_bounds(
            points@,
            enabled,
            start as int,
            end as int,
            radius as int,
            fallback_start as int,
            fallback_end as int,
        ),
{
    if !enabled || points.len() == 0 {
        return (start, end);
    }
    let s = match snap_to_nearest(points, start, radius) {
        Some(p) => p,
        None => start,
    };
    let e = match snap_to_nearest(points, end, radius) {
        Some(p) => p,
        None => end,
    };
    if e <= s + 1 {
        (fallback_start, fallback_end)
    } else {
        (s, e)
    }
}

#[verifier::rlimit(50)]
fn settle_bounds(
    n: usize,
    lag: usize,
    min_loop_frames: usize,
    phase_start: usize,
    detected_end: usize,
    num_repeats: usize,
    exhaustive: bool,
    start: usize,
    end: usize,
) -> (r: (usize, usize, bool))
    requires
        phase_start <= detected_end,
        detected_end <= n,
        n + lag < usize::MAX,
    ensures
        (r.0 as int, r.1 as int, r.2) == settled_bounds(
            n as int,
            lag as int,
            min_loop_frames as int,
            phase_start as int,
            detected_end as int,
            num_repeats as int,
            exhaustive,
            start as int,
            end as int,
        ),
        r.0 <= n,
        r.1 <= n,
        ({
            let s1 = if start < n {
                start
            } else {
                n
            };
            let e1 = if end < n && end > s1 {
                end
            } else if end < n {
                s1
            } else {
                n
            };
            &&& e1 - s1 < min_loop_frames ==> r.0 == phase_start
            &&& e1 - s1 < min_loop_frames && (num_repeats <= 1 || exhaustive) ==> r.1
                == detected_end
            &&& e1 - s1 >= min_loop_frames ==> r.0 == s1
        }),
{
    // clamp into the track
    let mut loop_start = if start < n {
        start
    } else {
        n
    };
    let e0 = if end < n {
        end
    } else {
        n
    };
    let mut loop_end = if e0 > loop_start {
        e0
    } else {
        loop_start
    };
    // a loop shortened below the minimum reverts to the detected bounds
    if loop_end - loop_start < min_loop_frames {
        loop_start = phase_start;
        loop_end = detected_end;
    }
    // a loop shrunk below three quarters of the detected length keeps the detected end
    let snapped_len: usize = if loop_end > loop_start {
        loop_end - loop_start
    } else {
        0
    };
    let detected_len: usize = detected_end - phase_start;
    if snapped_len > 0 && detected_len > 0 && (snapped_len as u128) * 4 < (detected_len as u128)
        * 3 {
        loop_end = detected_end;
    }
    let outro_len: usize = if n > loop_end {
        n - loop_end
    } else {
        0
    };
    let loop_len: usize = if loop_end > loop_start {
        loop_end - loop_start
    } else {
        0
    };
    if num_repeats > 1 && !exhaustive {
        let single_loop_end = loop_start + lag;
        let single_outro_len: usize = if n > single_loop_end {
            n - single_loop_end
        } else {
            0
        };
        let min_reasonable_outro = lag / 4;
        if outro_len < min_reasonable_outro && single_outro_len >= min_reasonable_outro {
            loop_end = single_loop_end;
        }
    }
    let probe = (outro_len as u128) > (loop_len as u128) + (loop_len as u128) / 2 && num_repeats == 1
        && !exhaustive;
    (loop_start, loop_end, probe)
}

/// Refine the loop `[phase_start, detected_end)` found by the repetition
/// search of a track of `n` frames with repeat period `lag`: snap it to
/// section boundaries and then to beats (each only when enabled and
/// non-empty), then settle it (see `settled_bounds`). Returns
/// `(loop_start, loop_end, probe)`; when `probe` is set, the caller runs a
/// looser repetition probe and passes its outcome to `accept_extension`.
pub fn refine_loop_bounds(
    n: usize,
    lag: usize,
    min_loop_frames: usize,
    phase_start: usize,
    detected_end: usize,
    num_repeats: usize,
    exhaustive: bool,
    section_frames: &Vec<usize>,
    snap_sections: bool,
    section_radius: usize,
    beat_frames: &Vec<usize>,
    snap_beats: bool,
    beat_radius: usize,
) -> (r: (usize, usize, bool))
    requires
        phase_start <= detected_end,
        detected_end <= n,
        n + lag < usize::MAX,
        forall|j: int| 0 <= j < section_frames.len() ==> #[trigger] section_frames@[j] < usize::MAX,
        forall|j: int| 0 <= j < beat_frames.len() ==> #[trigger] beat_frames@[j] < usize::MAX,
    ensures
        (r.0 as int, r.1 as int, r.2) == refined_bounds(
            n as int,
            lag as int,
            min_loop_frames as int,
            phase_start as int,
            detected_end as int,
            num_repeats as int,
            exhaustive,
            section_frames@,
            snap_sections,
            section_radius as int,
            beat_frames@,
            snap_beats,
            beat_radius as int,
        ),
        r.0 <= n,
        r.1 <= n,
        ({
            let (s0, e0) = snapped_loop(
                n as int,
                lag as int,
                phase_start as int,
                detected_end as int,
                section_frames@,
                snap_sections,
                section_radius as int,
                beat_frames@,
                snap_beats,
                beat_radius as int,
            );
            &&& e0 - s0 < min_loop_frames ==> r.0 == phase_start
            &&& e0 - s0 < min_loop_frames && (num_repeats <= 1 || exhaustive) ==> r.1
                == detected_end
            &&& e0 - s0 >= min_loop_frames ==> r.0 == s0
        }),
{
    let original_loop_end = phase_start + lag;
    let (a0, a1) = snap_bounds(
        section_frames,
        snap_sections,
        phase_start,
        detected_end,
        section_radius,
        phase_start,
        original_loop_end,
    );
    let (b0, b1) = snap_bounds(
        beat_frames,
        snap_beats,
        a0,
        a1,
        beat_radius,
        phase_start,
        original_loop_end,
    );
    settle_bounds(n, lag, min_loop_frames, phase_start, detected_end, num_repeats, exhaustive, b0, b1)
}

/// Whether the looser repetition probe, which reached `extended_end` with
/// `extended_repeats` repeats, is taken: it must find more repeats than
/// before and leave an outro of at least a fifth of the period.
pub open spec fn extension_accepted(
    n: int,
    lag: int,
    num_repeats: int,
    extended_end: int,
    extended_repeats: int,
) -> bool {
    extended_repeats > num_repeats && sat_sub(n, extended_end) >= lag / 5
}

/// The probe's end is taken exactly when it found at least one repeat more
/// than before and the outro it leaves, `n - extended_end` (zero past the
/// end of the track), is at least a fifth of the period; a single extra
/// repeat suffices.
pub proof fn extension_taken_on_more_repeats(
    n: nat,
    lag: nat,
    num_repeats: nat,
    extended_end: nat,
    extended_repeats: nat,
)
    ensures
        extension_accepted(n as int, lag as int, num_repeats as int, extended_end as int, extended_repeats as int)
            <==> (extended_repeats >= num_repeats + 1 && (if n > extended_end {
            n - extended_end
        } else {
            0
        }) >= lag / 5),
        extended_end + lag / 5 <= n ==> extension_accepted(
            n as int,
            lag as int,
            num_repeats as int,
            extended_end as int,
            num_repeats + 1int,
        ),
{
}

/// The loop end after the looser repetition probe.
pub fn accept_extension(
    n: usize,
    lag: usize,
    loop_end: usize,
    num_repeats: usize,
    extended_end: usize,
    extended_repeats: usize,
) -> (r: usize)
    ensures
        r == if extension_accepted(
            n as int,
            lag as int,
            num_repeats as int,
            extended_end as int,
            extended_repeats as int,
        ) {
            extended_end
        } else {
            loop_end
        },
        extended_repeats > num_repeats && (if n > extended_end {
            n - extended_end
        } else {
            0
        }) >= lag / 5 ==> r == extended_end,
        extended_repeats <= num_repeats ==> r == loop_end,
        (if n > extended_end {
            n - extended_end
        } else {
            0
        }) < lag / 5 ==> r == loop_end,
{
    if extended_repeats > num_repeats {
        let extended_outro: usize = if n > extended_end {
            n - extended_end
        } else {
            0
        };
        if extended_outro >= lag / 5 {
            return extended_end;
        }
    }
    loop_end
}

/// The end of the next repetition after `current_end`, when another full
/// period fits in the track and still leaves an outro of at least a quarter
/// period; the repetition probe stops otherwise.
pub fn next_repeat_end(n: usize, lag: usize, current_end: usize) -> (r: Option<usize>)
    requires
        current_end + lag <= usize::MAX,
    ensures
        r == if current_end + lag <= n && n - (current_end + lag) >= lag / 4 {
            Some((current_end + lag) as usize)
        } else {
            None::<usize>
        },
{
    let next_end = current_end + lag;
    if next_end > n {
        return None;
    }
    if n - next_end >= lag / 4 {
        Some(next_end)
    } else {
        None
    }
}

/// Spacing of the sampled offsets when comparing a loop with a candidate
/// repeat: about ten samples per period, at least one frame apart, using a
/// window of at least five frames.
pub fn repetition_sample_step(lag: usize) -> (r: usize)
    ensures
        r == if lag / (if lag / 10 > 5 {
            lag / 10
        } else {
            5
        }) > 1 {
            lag / (if lag / 10 > 5 {
                lag / 10
            } else {
                5
            })
        } else {
            1
        },
        r >= 1,
{
    let window_size = if lag / 10 > 5 {
        lag / 10
    } else {
        5
    };
    let step = lag / window_size;
    if step > 1 {
        step
    } else {
        1
    }
}

/// A frame that is itself one of the points snaps to itself: the first
/// occurrence of `x` is at distance zero, which no other point beats.
pub proof fn snap_keeps_points(points: Seq<usize>, x: usize, radius: int)
    requires
        points.contains(x),
        radius >= 0,
    ensures
        nearest_within(points, x as int, radius) == Some(x),
{
    let k = choose|k: int| 0 <= k < points.len() && points[k] == x;
    let first = choose|i: int|
        0 <= i < points.len() && points[i] == x && forall|j: int| 0 <= j < i ==> points[j] != x;
    assert(exists|i: int|
        0 <= i < points.len() && points[i] == x && forall|j: int| 0 <= j < i ==> points[j] != x)
        by {
        lemma_first_occurrence(points, x, k);
    }
    assert(first_nearest(points, points.len() as int, x as int, radius, first));
    assert forall|i: int| first_nearest(points, points.len() as int, x as int, radius, i) implies i
        == first by {
        lemma_first_nearest_unique(points, points.len() as int, x as int, radius, i, first);
    }
}

proof fn lemma_first_occurrence(points: Seq<usize>, x: usize, k: int)
    requires
        0 <= k < points.len(),
        points[k] == x,
    ensures
        exists|i: int|
            0 <= i < points.len() && points[i] == x && forall|j: int| 0 <= j < i ==> points[j] != x,
    decreases k,
{
    if exists|j: int| 0 <= j < k && points[j] == x {
        let j = choose|j: int| 0 <= j < k && points[j] == x;
        lemma_first_occurrence(points, x, j);
    } else {
        assert(forall|j: int| 0 <= j < k ==> points[j] != x);
    }
}

/// The start positions scanned by the exhaustive loop-pair search for a
/// period `lag` in an `n`-frame track: starts `0..=max_start`, where each
/// start leaves room for one period and an outro of `max(lag / 10, 50)`
/// frames, scanned every `step = clamp(lag / 100, 10, 50)` frames. `None`
/// when `max_start` is below `min_loop_frames`; the search then falls back
/// to the loop `[0, min(lag, n))`.
pub fn loop_pair_search_plan(n: usize, lag: usize, min_loop_frames: usize) -> (r: Option<
    (usize, usize),
>)
    requires
        lag + (if lag / 10 > 50 {
            lag / 10
        } else {
            50
        }) <= usize::MAX,
    ensures
        ({
            let min_outro = if lag / 10 > 50 {
                lag / 10
            } else {
                50
            };
            let max_start = sat_sub(n as int, lag + min_outro);
            let step = if lag / 100 < 10 {
                10
            } else if lag / 100 > 50 {
                50
            } else {
                lag / 100
            };
            &&& max_start < min_loop_frames ==> r is None
            &&& max_start >= min_loop_frames ==> r == Some((max_start as usize, step as usize))
        }),
        r matches Some(p) ==> p.0 + lag + (if lag / 10 > 50 {
            lag / 10
        } else {
            50
        }) <= n || p.0 == 0,
        r matches Some(p) ==> 10 <= p.1 <= 50,
{
    let min_outro = if lag / 10 > 50 {
        lag / 10
    } else {
        50
    };
    let reach = lag + min_outro;
    let max_start = if n > reach {
        n - reach
    } else {
        0
    };
    if max_start < min_loop_frames {
        return None;
    }
    let coarse = lag / 100;
    let step = if coarse < 10 {
        10
    } else if coarse > 50 {
        50
    } else {
        coarse
    };
    Some((max_start, step))
}

} // verus!

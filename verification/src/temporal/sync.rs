//! Beat synchronization: which frames each beat aggregates.
use vstd::prelude::*;

verus! {

/// Aggregation method for beat synchronization.
#[derive(Debug, Clone, Copy, PartialEq, Eq, Structural, Default)]
pub enum AggregationMethod {
    /// Mean of all frames in the beat interval.
    #[default]
    Mean,
    /// Median of all frames in the beat interval.
    Median,
    /// Maximum value across frames in the beat interval.
    Max,
    /// First frame in the beat interval.
    First,
    /// Last frame in the beat interval.
    Last,
}

/// Configuration for beat synchronization.
#[derive(Debug, Clone)]
pub struct SyncConfig {
    /// Aggregation method to use.
    pub method: AggregationMethod,
    /// If true, the last beat interval runs to the end of the frames.
    pub pad_end: bool,
}

impl Default for SyncConfig {
    /// Mean aggregation, last interval padded to the end.
    fn default() -> (c: Self)
        ensures
            c.method == AggregationMethod::Mean,
            c.pad_end,
    {
        SyncConfig { method: AggregationMethod::Mean, pad_end: true }
    }
}

/// The frame range `[start, end)` aggregated for beat `i`: from the midpoint
/// with the previous beat (or frame 0) to the midpoint with the next beat;
/// the last beat runs to the end of the frames when `pad_end`, else to its
/// own frame inclusive. The range is clamped to `[0, n_frames]` and never
/// reversed.
pub open spec fn beat_interval(beats: Seq<usize>, i: int, n_frames: int, pad_end: bool) -> (int, int) {
    let start_frame = if i == 0 {
        0
    } else {
        (beats[i - 1] + beats[i]) / 2
    };
    let end_frame = if i + 1 < beats.len() {
        (beats[i] + beats[i + 1]) / 2
    } else if pad_end {
        n_frames
    } else {
        beats[i] + 1
    };
    let start = if start_frame < n_frames {
        start_frame
    } else {
        n_frames
    };
    let end0 = if end_frame < n_frames {
        end_frame
    } else {
        n_frames
    };
    let end = if end0 > start {
        end0
    } else {
        start
    };
    (start, end)
}

/// Whether beat positions never decrease.
pub open spec fn non_decreasing(beats: Seq<usize>) -> bool {
    forall|i: int, j: int| 0 <= i <= j < beats.len() ==> beats[i] <= beats[j]
}

/// The frame range aggregated for every beat, in beat order.
pub fn beat_intervals(beat_frames: &[usize], n_frames: usize, cfg: &SyncConfig) -> (r: Vec<
    (usize, usize),
>)
    requires
        forall|i: int|
            0 < i < beat_frames.len() ==> beat_frames@[i - 1] + #[trigger] beat_frames@[i]
                <= usize::MAX,
        !cfg.pad_end && beat_frames.len() > 0 ==> beat_frames@[beat_frames.len() - 1]
            < usize::MAX,
    ensures
        r.len() == beat_frames.len(),
        forall|i: int|
            0 <= i < r.len() ==> (#[trigger] r@[i].0 as int, r@[i].1 as int) == beat_interval(
                beat_frames@,
                i,
                n_frames as int,
                cfg.pad_end,
            ),
        r.len() > 0 ==> r@[0].0 == 0,
        forall|i: int|
            0 < i < r.len() ==> #[trigger] r@[i].0 == if (beat_frames@[i - 1] + beat_frames@[i]) / 2
                < n_frames {
                (beat_frames@[i - 1] + beat_frames@[i]) / 2
            } else {
                n_frames as int
            },
        forall|i: int|
            0 <= i < r.len() - 1 ==> #[trigger] r@[i].1 == if r@[i + 1].0 > r@[i].0 {
                r@[i + 1].0
            } else {
                r@[i].0
            },
        r.len() > 0 && cfg.pad_end ==> r@[r.len() - 1].1 == n_frames,
        r.len() > 0 && !cfg.pad_end ==> ({
            let last = r@[r.len() - 1];
            let own_end = if beat_frames@[r.len() - 1] + 1 < n_frames {
                beat_frames@[r.len() - 1] + 1
            } else {
                n_frames as int
            };
            last.1 == if own_end > last.0 {
                own_end
            } else {
                last.0 as int
            }
        }),
{
    proof {
        beat_interval_laws(beat_frames@, n_frames as int, cfg.pad_end);
    }
    let n_beats = beat_frames.len();
    let mut out: Vec<(usize, usize)> = Vec::with_capacity(n_beats);
    let mut beat_idx: usize = 0;
    while beat_idx < n_beats
        invariant
            n_beats == beat_frames.len(),
            beat_idx <= n_beats,
            out.len() == beat_idx,
            forall|i: int|
                0 < i < beat_frames.len() ==> beat_frames@[i - 1] + #[trigger] beat_frames@[i]
                    <= usize::MAX,
            !cfg.pad_end && beat_frames.len() > 0 ==> beat_frames@[beat_frames.len() - 1]
                < usize::MAX,
            forall|i: int|
                0 <= i < out.len() ==> (#[trigger] out@[i].0 as int, out@[i].1 as int)
                    == beat_interval(beat_frames@, i, n_frames as int, cfg.pad_end),
        decreases n_beats - beat_idx,
    {
        let beat_frame = beat_frames[beat_idx];
        let start_frame = if beat_idx == 0 {
            0
        } else {
            (beat_frames[beat_idx - 1] + beat_frame) / 2
        };
        let end_frame = if beat_idx + 1 < n_beats {
            proof {
                assert(beat_frames@[(beat_idx + 1) - 1] + beat_frames@[beat_idx + 1]
                    <= usize::MAX);
            }
            (beat_frame + beat_frames[beat_idx + 1]) / 2
        } else if cfg.pad_end {
            n_frames
        } else {
            beat_frame + 1
        };
        let start = if start_frame < n_frames {
            start_frame
        } else {
            n_frames
        };
        let end0 = if end_frame < n_frames {
            end_frame
        } else {
            n_frames
        };
        let end = if end0 > start {
            end0
        } else {
            start
        };
        out.push((start, end));
        beat_idx += 1;
    }
    proof {
        if out.len() > 0 {
            let last = out.len() - 1;
            assert((out@[last].0 as int, out@[last].1 as int) == beat_interval(
                beat_frames@,
                last as int,
                n_frames as int,
                cfg.pad_end,
            ));
        }
    }
    out
}

/// What each beat aggregates, for any beat positions: the first interval
/// starts at frame 0; every later one starts at the midpoint with the
/// previous beat (capped at `n_frames`); every interval ends where the next
/// one starts, unless that is before its own start; the last one ends at
/// `n_frames` with `pad_end`, and otherwise just after its own beat frame
/// (capped at `n_frames`, never before its start).
pub proof fn beat_interval_laws(beats: Seq<usize>, n_frames: int, pad_end: bool)
    requires
        n_frames >= 0,
    ensures
        beats.len() > 0 ==> beat_interval(beats, 0, n_frames, pad_end).0 == 0,
        forall|i: int|
            0 < i < beats.len() ==> #[trigger] beat_interval(beats, i, n_frames, pad_end).0 == if (
            beats[i - 1] + beats[i]) / 2 < n_frames {
                (beats[i - 1] + beats[i]) / 2
            } else {
                n_frames
            },
        forall|i: int|
            0 <= i < beats.len() - 1 ==> #[trigger] beat_interval(beats, i, n_frames, pad_end).1
                == if beat_interval(beats, i + 1, n_frames, pad_end).0 > beat_interval(
                beats,
                i,
                n_frames,
                pad_end,
            ).0 {
                beat_interval(beats, i + 1, n_frames, pad_end).0
            } else {
                beat_interval(beats, i, n_frames, pad_end).0
            },
        beats.len() > 0 && pad_end ==> beat_interval(beats, beats.len() - 1, n_frames, pad_end).1
            == n_frames,
        beats.len() > 0 && !pad_end ==> ({
            let last = beat_interval(beats, beats.len() - 1, n_frames, pad_end);
            let own_end = if beats[beats.len() - 1] + 1 < n_frames {
                beats[beats.len() - 1] + 1
            } else {
                n_frames
            };
            last.1 == if own_end > last.0 {
                own_end
            } else {
                last.0
            }
        }),
{
}

/// For non-decreasing beats, the beat intervals tile the frames: the first
/// starts at frame 0, each ends where the next starts, every interval lies
/// in `[0, n_frames]` and is not reversed, and with `pad_end` the last one
/// ends at `n_frames`.
pub proof fn beat_intervals_tile(beats: Seq<usize>, n_frames: int, pad_end: bool)
    requires
        n_frames >= 0,
        beats.len() > 0,
        non_decreasing(beats),
    ensures
        beat_interval(beats, 0, n_frames, pad_end).0 == 0,
        forall|i: int|
            0 <= i < beats.len() ==> 0 <= #[trigger] beat_interval(beats, i, n_frames, pad_end).0
                <= beat_interval(beats, i, n_frames, pad_end).1 <= n_frames,
        forall|i: int|
            0 <= i < beats.len() - 1 ==> #[trigger] beat_interval(beats, i, n_frames, pad_end).1
                == beat_interval(beats, i + 1, n_frames, pad_end).0,
        pad_end ==> beat_interval(beats, beats.len() - 1, n_frames, pad_end).1 == n_frames,
{
    assert forall|i: int| 0 <= i < beats.len() - 1 implies #[trigger] beat_interval(
        beats,
        i,
        n_frames,
        pad_end,
    ).1 == beat_interval(beats, i + 1, n_frames, pad_end).0 by {
        if i > 0 {
            assert(beats[i - 1] <= beats[i + 1]);
            assert(beats[i - 1] + beats[i] <= beats[i] + beats[i + 1]);
            assert((beats[i - 1] + beats[i]) / 2 <= (beats[i] + beats[i + 1]) / 2) by (
            nonlinear_arith)
                requires
                    beats[i - 1] + beats[i] <= beats[i] + beats[i + 1],
            ;
        }
    }
}

} // verus!

//! Lag and phase search ranges for repeat (loop period) estimation.
use vstd::prelude::*;

verus! {

/// How to aggregate similarity along a diagonal (lag).
#[derive(Debug, Clone, Copy, PartialEq, Eq, Structural)]
pub enum LagAggregation {
    /// Mean of diagonal entries (recommended).
    Mean,
    /// Sum of diagonal entries (biased toward shorter available diagonals).
    Sum,
    /// Maximum along the diagonal (more sensitive to single matches).
    Max,
}

/// Configuration for diagonal lag energy computation.
#[derive(Debug, Clone)]
pub struct LagEnergyConfig {
    /// Minimum lag (frames) to consider.
    pub min_lag: usize,
    /// Maximum lag (frames) to consider (inclusive).
    pub max_lag: usize,
    /// Aggregate method along each diagonal.
    pub aggregation: LagAggregation,
    /// If true, subtract the global mean similarity before aggregation.
    pub mean_center: bool,
    /// Optional smoothing over lag axis (moving average over lag).
    pub smooth_lags: Option<usize>,
}

impl Default for LagEnergyConfig {
    /// Lags 20..=800, mean aggregation, mean-centered, smoothed over 7 lags.
    fn default() -> (c: Self)
        ensures
            c.min_lag == 20,
            c.max_lag == 800,
            c.aggregation == LagAggregation::Mean,
            c.mean_center,
            c.smooth_lags == Some(7usize),
    {
        LagEnergyConfig {
            min_lag: 20,
            max_lag: 800,
            aggregation: LagAggregation::Mean,
            mean_center: true,
            smooth_lags: Some(7),
        }
    }
}

/// The lags scored for a matrix of `num_frames` frames: the configured
/// range with both ends capped at the last lag with a non-empty diagonal
/// (`num_frames - 1`). An empty matrix keeps the configured range.
pub open spec fn capped_lag_range(num_frames: int, min_lag: int, max_lag: int) -> (int, int) {
    if num_frames == 0 {
        (min_lag, max_lag)
    } else {
        let last = num_frames - 1;
        (
            if min_lag < last {
                min_lag
            } else {
                last
            },
            if max_lag < last {
                max_lag
            } else {
                last
            },
        )
    }
}

/// The lag range `(min_lag, max_lag)` scored by the diagonal lag energy;
/// energy is computed for every lag in it when the matrix is non-empty and
/// the range is not reversed, and for no lag otherwise.
pub fn lag_range(num_frames: usize, cfg: &LagEnergyConfig) -> (r: (usize, usize))
    ensures
        (r.0 as int, r.1 as int) == capped_lag_range(
            num_frames as int,
            cfg.min_lag as int,
            cfg.max_lag as int,
        ),
        num_frames > 0 ==> r.1 < num_frames,
{
    if num_frames == 0 {
        return (cfg.min_lag, cfg.max_lag);
    }
    let last = num_frames - 1;
    let min_lag = if cfg.min_lag < last {
        cfg.min_lag
    } else {
        last
    };
    let max_lag = if cfg.max_lag < last {
        cfg.max_lag
    } else {
        last
    };
    (min_lag, max_lag)
}

/// Configuration for repeat phase (loop start) estimation.
#[derive(Debug, Clone)]
pub struct RepeatPhaseConfig {
    /// Window length (frames) over which to average diagonal energy.
    pub window: usize,
    /// Optional smoothing over phase scores (frames).
    pub smooth: Option<usize>,
}

impl Default for RepeatPhaseConfig {
    /// An 8-frame window, phase scores smoothed over 5 frames.
    fn default() -> (c: Self)
        ensures
            c.window == 8,
            c.smooth == Some(5usize),
    {
        RepeatPhaseConfig { window: 8, smooth: Some(5) }
    }
}

/// The last loop start scored for `lag`: the window (at least one frame)
/// of frames starting there and its copy `lag` frames later fit in the
/// matrix. `None` when the lag is zero or too long, or no start beyond the
/// first is left.
pub open spec fn last_phase_start(num_frames: int, lag: int, window: int) -> Option<int> {
    let w = if window > 1 {
        window
    } else {
        1
    };
    if lag == 0 || lag >= num_frames || num_frames - (lag + w) <= 0 {
        None
    } else {
        Some(num_frames - (lag + w))
    }
}

/// Range of candidate loop starts `0..=max_start` for a repeat at `lag`.
pub fn repeat_phase_range(num_frames: usize, lag: usize, cfg: &RepeatPhaseConfig) -> (r: Option<
    usize,
>)
    requires
        lag < num_frames ==> lag + cfg.window <= usize::MAX,
    ensures
        r matches Some(m) ==> last_phase_start(num_frames as int, lag as int, cfg.window as int)
            == Some(m as int),
        r is None ==> last_phase_start(num_frames as int, lag as int, cfg.window as int) is None,
        r matches Some(m) ==> m >= 1 && m + lag + (if cfg.window > 1 {
            cfg.window as int
        } else {
            1
        }) == num_frames,
{
    if lag == 0 || lag >= num_frames {
        return None;
    }
    let window = if cfg.window > 1 {
        cfg.window
    } else {
        1
    };
    let max_start = if num_frames > lag + window {
        num_frames - (lag + window)
    } else {
        0
    };
    if max_start == 0 {
        return None;
    }
    Some(max_start)
}

} // verus!

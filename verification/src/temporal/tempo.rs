//! Octave candidates around the strongest autocorrelation lag.
use vstd::prelude::*;

verus! {

/// `lag` as a one-element sequence when it lies in `[min_lag, max_lag]`
/// (and is positive when `positive` is asked for), else empty.
pub open spec fn lag_if_in_range(lag: int, min_lag: int, max_lag: int, positive: bool) -> Seq<usize> {
    if min_lag <= lag <= max_lag && (!positive || lag > 0) {
        seq![lag as usize]
    } else {
        Seq::empty()
    }
}

/// Candidate periods in order: `raw`, `2*raw`, `3*raw`, `4*raw`, then
/// `raw/2` and `raw/3` (positive ones), each kept only inside the lag range.
pub open spec fn octave_candidates(raw: int, min_lag: int, max_lag: int) -> Seq<usize> {
    lag_if_in_range(raw, min_lag, max_lag, false) + lag_if_in_range(raw * 2, min_lag, max_lag, false)
        + lag_if_in_range(raw * 3, min_lag, max_lag, false) + lag_if_in_range(
        raw * 4,
        min_lag,
        max_lag,
        false,
    ) + lag_if_in_range(raw / 2, min_lag, max_lag, true) + lag_if_in_range(
        raw / 3,
        min_lag,
        max_lag,
        true,
    )
}

/// Whether the candidate `lag` is admitted: inside `[min_lag, max_lag]`,
/// and positive when `positive` is asked for.
pub open spec fn admitted(lag: int, min_lag: int, max_lag: int, positive: bool) -> bool {
    min_lag <= lag <= max_lag && (!positive || lag > 0)
}

/// 1 for true, 0 for false.
pub open spec fn count_if(b: bool) -> int {
    if b {
        1
    } else {
        0
    }
}

/// Whether `x` is one of the octave candidates of `raw` that may be kept:
/// a multiple `raw * m` for `m` in `1..=4`, or a positive `raw / 2` or
/// `raw / 3`, inside the lag range.
pub open spec fn is_octave_of(x: int, raw: int, min_lag: int, max_lag: int) -> bool {
    &&& min_lag <= x <= max_lag
    &&& (x == raw || x == raw * 2 || x == raw * 3 || x == raw * 4 || (x == raw / 2 && x > 0) || (x
        == raw / 3 && x > 0))
}

/// The candidates are exactly the admitted ones among `raw`, `2*raw`,
/// `3*raw`, `4*raw`, `raw/2`, `raw/3`: each admitted multiple and each
/// admitted (positive) fraction appears, nothing else does, there are as
/// many as are admitted, and for a positive `raw` the multiples come first
/// in increasing order, followed by the fractions, largest first.
pub proof fn octave_candidates_laws(raw: int, min_lag: int, max_lag: int)
    requires
        0 <= raw,
        raw * 4 <= usize::MAX,
    ensures
        ({
            let c = octave_candidates(raw, min_lag, max_lag);
            &&& forall|m: int|
                1 <= m <= 4 && min_lag <= raw * m <= max_lag ==> #[trigger] c.contains(
                    (raw * m) as usize,
                )
            &&& admitted(raw / 2, min_lag, max_lag, true) ==> c.contains(
                (raw / 2) as usize,
            )
            &&& admitted(raw / 3, min_lag, max_lag, true) ==> c.contains(
                (raw / 3) as usize,
            )
            &&& forall|k: int|
                0 <= k < c.len() ==> is_octave_of(#[trigger] c[k] as int, raw, min_lag, max_lag)
            &&& c.len() == count_if(admitted(raw, min_lag, max_lag, false))
                + count_if(admitted(raw * 2, min_lag, max_lag, false)) + count_if(
                admitted(raw * 3, min_lag, max_lag, false),
            ) + count_if(admitted(raw * 4, min_lag, max_lag, false)) + count_if(
                admitted(raw / 2, min_lag, max_lag, true),
            ) + count_if(admitted(raw / 3, min_lag, max_lag, true))
            &&& raw > 0 ==> forall|i: int, j: int|
                0 <= i < j < c.len() ==> (c[j] >= raw ==> c[i] < c[j]) && (c[i] < raw ==> c[j]
                    <= c[i])
        }),
{
    let lo = min_lag;
    let hi = max_lag;
    let r = raw;
    let s1 = lag_if_in_range(r, lo, hi, false);
    let s2 = lag_if_in_range(r * 2, lo, hi, false);
    let s3 = lag_if_in_range(r * 3, lo, hi, false);
    let s4 = lag_if_in_range(r * 4, lo, hi, false);
    let s5 = lag_if_in_range(r / 2, lo, hi, true);
    let s6 = lag_if_in_range(r / 3, lo, hi, true);
    let c = octave_candidates(r, lo, hi);
    assert(c == s1 + s2 + s3 + s4 + s5 + s6);
    let l1 = s1.len() as int;
    let l2 = l1 + s2.len();
    let l3 = l2 + s3.len();
    let l4 = l3 + s4.len();
    let l5 = l4 + s5.len();
    let l6 = l5 + s6.len();
    assert(c.len() == l6);
    assert(0 <= r * 2 && 0 <= r * 3 && 0 <= r * 4) by (nonlinear_arith)
        requires
            r >= 0,
    ;
    assert(r > 0 ==> r < r * 2 && r * 2 < r * 3 && r * 3 < r * 4) by (nonlinear_arith);
    assert(r > 0 ==> r / 2 < r && r / 3 <= r / 2) by (nonlinear_arith);
    // the element at each position
    assert forall|k: int| 0 <= k < c.len() implies #[trigger] c[k] as int == (if k < l1 {
        r
    } else if k < l2 {
        r * 2
    } else if k < l3 {
        r * 3
    } else if k < l4 {
        r * 4
    } else if k < l5 {
        r / 2
    } else {
        r / 3
    }) && (if k < l1 {
        k == 0 && admitted(r, lo, hi, false)
    } else if k < l2 {
        k == l1 && admitted(r * 2, lo, hi, false)
    } else if k < l3 {
        k == l2 && admitted(r * 3, lo, hi, false)
    } else if k < l4 {
        k == l3 && admitted(r * 4, lo, hi, false)
    } else if k < l5 {
        k == l4 && admitted(r / 2, lo, hi, true)
    } else {
        k == l5 && admitted(r / 3, lo, hi, true)
    }) by {
        if k < l1 {
            assert(c[k] == s1[k]);
        } else if k < l2 {
            assert(c[k] == s2[k - l1]);
        } else if k < l3 {
            assert(c[k] == s3[k - l2]);
        } else if k < l4 {
            assert(c[k] == s4[k - l3]);
        } else if k < l5 {
            assert(c[k] == s5[k - l4]);
        } else {
            assert(c[k] == s6[k - l5]);
        }
    }
    assert forall|m: int| 1 <= m <= 4 && min_lag <= raw * m <= max_lag implies #[trigger] c.contains(
        (raw * m) as usize,
    ) by {
        if m == 1 {
            assert(c[0] as int == r);
        } else if m == 2 {
            assert(c[l1] as int == r * 2);
        } else if m == 3 {
            assert(c[l2] as int == r * 3);
        } else {
            assert(c[l3] as int == r * 4);
        }
    }
    if admitted(r / 2, lo, hi, true) {
        assert(c[l4] as int == r / 2);
    }
    if admitted(r / 3, lo, hi, true) {
        assert(c[l5] as int == r / 3);
    }
}

/// The tempo period candidates checked for octave errors around the
/// strongest autocorrelation lag `raw_best_lag`.
pub fn tempo_candidates(raw_best_lag: usize, min_lag: usize, max_lag: usize) -> (r: Vec<usize>)
    requires
        raw_best_lag * 4 <= usize::MAX,
    ensures
        r@ == octave_candidates(raw_best_lag as int, min_lag as int, max_lag as int),
        forall|k: int| 0 <= k < r.len() ==> min_lag <= #[trigger] r@[k] <= max_lag,
        forall|m: int|
            1 <= m <= 4 && min_lag <= raw_best_lag * m <= max_lag ==> #[trigger] r@.contains(
                (raw_best_lag * m) as usize,
            ),
        admitted((raw_best_lag / 2) as int, min_lag as int, max_lag as int, true) ==> r@.contains(
            raw_best_lag / 2,
        ),
        admitted((raw_best_lag / 3) as int, min_lag as int, max_lag as int, true) ==> r@.contains(
            raw_best_lag / 3,
        ),
        forall|k: int|
            0 <= k < r.len() ==> is_octave_of(
                #[trigger] r@[k] as int,
                raw_best_lag as int,
                min_lag as int,
                max_lag as int,
            ),
        r.len() == count_if(admitted(raw_best_lag as int, min_lag as int, max_lag as int, false))
            + count_if(admitted(raw_best_lag * 2, min_lag as int, max_lag as int, false)) + count_if(
            admitted(raw_best_lag * 3, min_lag as int, max_lag as int, false),
        ) + count_if(admitted(raw_best_lag * 4, min_lag as int, max_lag as int, false)) + count_if(
            admitted((raw_best_lag / 2) as int, min_lag as int, max_lag as int, true),
        ) + count_if(admitted((raw_best_lag / 3) as int, min_lag as int, max_lag as int, true)),
        raw_best_lag > 0 ==> forall|i: int, j: int|
            0 <= i < j < r.len() ==> (r@[j] >= raw_best_lag ==> r@[i] < r@[j]) && (r@[i]
                < raw_best_lag ==> r@[j] <= r@[i]),
{
    proof {
        octave_candidates_laws(raw_best_lag as int, min_lag as int, max_lag as int);
    }
    let mut candidates: Vec<usize> = Vec::with_capacity(6);
    let ghost expected = octave_candidates(raw_best_lag as int, min_lag as int, max_lag as int);
    let mut multiplier: usize = 1;
    while multiplier <= 4
        invariant
            1 <= multiplier <= 5,
            raw_best_lag * 4 <= usize::MAX,
            candidates@ == if multiplier == 1 {
                Seq::<usize>::empty()
            } else if multiplier == 2 {
                lag_if_in_range(raw_best_lag as int, min_lag as int, max_lag as int, false)
            } else if multiplier == 3 {
                lag_if_in_range(raw_best_lag as int, min_lag as int, max_lag as int, false)
                    + lag_if_in_range(raw_best_lag * 2, min_lag as int, max_lag as int, false)
            } else if multiplier == 4 {
                lag_if_in_range(raw_best_lag as int, min_lag as int, max_lag as int, false)
                    + lag_if_in_range(raw_best_lag * 2, min_lag as int, max_lag as int, false)
                    + lag_if_in_range(raw_best_lag * 3, min_lag as int, max_lag as int, false)
            } else {
                lag_if_in_range(raw_best_lag as int, min_lag as int, max_lag as int, false)
                    + lag_if_in_range(raw_best_lag * 2, min_lag as int, max_lag as int, false)
                    + lag_if_in_range(raw_best_lag * 3, min_lag as int, max_lag as int, false)
                    + lag_if_in_range(raw_best_lag * 4, min_lag as int, max_lag as int, false)
            },
        decreases 5 - multiplier,
    {
        proof {
            assert(raw_best_lag * multiplier <= raw_best_lag * 4) by (nonlinear_arith)
                requires
                    multiplier <= 4,
            ;
        }
        let candidate_lag = raw_best_lag * multiplier;
        let ghost before = candidates@;
        if candidate_lag >= min_lag && candidate_lag <= max_lag {
            candidates.push(candidate_lag);
        }
        assert(candidates@ =~= before + lag_if_in_range(
            raw_best_lag * multiplier,
            min_lag as int,
            max_lag as int,
            false,
        ));
        assert(raw_best_lag as int == raw_best_lag * 1);
        multiplier += 1;
    }
    let mut divisor: usize = 2;
    while divisor <= 3
        invariant
            2 <= divisor <= 4,
            candidates@ == if divisor == 2 {
                lag_if_in_range(raw_best_lag as int, min_lag as int, max_lag as int, false)
                    + lag_if_in_range(raw_best_lag * 2, min_lag as int, max_lag as int, false)
                    + lag_if_in_range(raw_best_lag * 3, min_lag as int, max_lag as int, false)
                    + lag_if_in_range(raw_best_lag * 4, min_lag as int, max_lag as int, false)
            } else if divisor == 3 {
                lag_if_in_range(raw_best_lag as int, min_lag as int, max_lag as int, false)
                    + lag_if_in_range(raw_best_lag * 2, min_lag as int, max_lag as int, false)
                    + lag_if_in_range(raw_best_lag * 3, min_lag as int, max_lag as int, false)
                    + lag_if_in_range(raw_best_lag * 4, min_lag as int, max_lag as int, false)
                    + lag_if_in_range((raw_best_lag / 2) as int, min_lag as int, max_lag as int, true)
            } else {
                octave_candidates(raw_best_lag as int, min_lag as int, max_lag as int)
            },
        decreases 4 - divisor,
    {
        let candidate_lag = raw_best_lag / divisor;
        let ghost before = candidates@;
        if candidate_lag >= min_lag && candidate_lag <= max_lag && candidate_lag > 0 {
            candidates.push(candidate_lag);
        }
        assert(candidates@ =~= before + lag_if_in_range(
            (raw_best_lag / divisor) as int,
            min_lag as int,
            max_lag as int,
            true,
        ));
        divisor += 1;
    }
    assert forall|k: int| 0 <= k < candidates.len() implies min_lag <= #[trigger] candidates@[k]
        <= max_lag by {
        let s1 = lag_if_in_range(raw_best_lag as int, min_lag as int, max_lag as int, false);
        let s2 = lag_if_in_range(raw_best_lag * 2, min_lag as int, max_lag as int, false);
        let s3 = lag_if_in_range(raw_best_lag * 3, min_lag as int, max_lag as int, false);
        let s4 = lag_if_in_range(raw_best_lag * 4, min_lag as int, max_lag as int, false);
        let s5 = lag_if_in_range((raw_best_lag / 2) as int, min_lag as int, max_lag as int, true);
        let s6 = lag_if_in_range((raw_best_lag / 3) as int, min_lag as int, max_lag as int, true);
        let all = s1 + s2 + s3 + s4 + s5 + s6;
        assert(candidates@ == all);
        assert forall|m: int| 0 <= m < all.len() implies min_lag <= #[trigger] all[m] <= max_lag by {
            if m < s1.len() {
            } else if m < s1.len() + s2.len() {
            } else if m < s1.len() + s2.len() + s3.len() {
            } else if m < s1.len() + s2.len() + s3.len() + s4.len() {
            } else if m < s1.len() + s2.len() + s3.len() + s4.len() + s5.len() {
            } else {
            }
        }
    }
    candidates
}

} // verus!

//! Beat grids at a fixed period, and the clean-up after snapping beats.
use vstd::prelude::*;

verus! {

/// Beats at `phase_offset + k * period_frames` for every `k` that lands
/// before frame `n`, in order.
pub fn beat_grid(phase_offset: usize, period_frames: usize, n: usize) -> (r: Vec<usize>)
    requires
        period_frames > 0,
        n + period_frames <= usize::MAX,
    ensures
        forall|k: int|
            0 <= k < r.len() ==> #[trigger] r@[k] == phase_offset + k * period_frames && r@[k]
                < n,
        phase_offset + r.len() * period_frames >= n,
{
    let mut beats: Vec<usize> = Vec::new();
    let mut t = phase_offset;
    assert(phase_offset + beats.len() * period_frames == phase_offset) by (nonlinear_arith)
        requires
            beats.len() == 0,
    ;
    while t < n
        invariant
            period_frames > 0,
            n + period_frames <= usize::MAX,
            t == phase_offset + beats.len() * period_frames,
            forall|k: int|
                0 <= k < beats.len() ==> #[trigger] beats@[k] == phase_offset + k * period_frames
                    && beats@[k] < n,
        decreases if t < n {
            n - t
        } else {
            0
        },
    {
        beats.push(t);
        proof {
            assert(phase_offset + beats.len() * period_frames == t + period_frames) by (
            nonlinear_arith)
                requires
                    t == phase_offset + (beats.len() - 1) * period_frames,
            ;
        }
        t += period_frames;
    }
    beats
}

/// Sorts in place, as `<[usize]>::sort_unstable` does.
#[verifier::external_body]
fn sort_unstable_frames(v: &mut Vec<usize>)
    ensures
        final(v)@.to_multiset() == old(v)@.to_multiset(),
        forall|i: int, j: int| 0 <= i <= j < final(v).len() ==> final(v)@[i] <= final(v)@[j],
{
    v.sort_unstable();
}

/// The frame positions in increasing order, each once.
pub fn sorted_unique_frames(frames: Vec<usize>) -> (r: Vec<usize>)
    ensures
        forall|i: int, j: int| 0 <= i < j < r.len() ==> r@[i] < r@[j],
        forall|x: usize| r@.contains(x) <==> frames@.contains(x),
{
    broadcast use vstd::seq_lib::group_to_multiset_ensures;

    let mut sorted = frames;
    let ghost original = sorted@;
    sort_unstable_frames(&mut sorted);
    assert forall|x: usize| sorted@.contains(x) <==> original.contains(x) by {
        assert(sorted@.to_multiset().count(x) == original.to_multiset().count(x));
    }
    let mut out: Vec<usize> = Vec::new();
    let mut i: usize = 0;
    while i < sorted.len()
        invariant
            i <= sorted.len(),
            forall|a: int, b: int| 0 <= a <= b < sorted.len() ==> sorted@[a] <= sorted@[b],
            forall|a: int, b: int| 0 <= a < b < out.len() ==> out@[a] < out@[b],
            i > 0 ==> out.len() > 0 && out@[out.len() - 1] == sorted@[i - 1],
            i == 0 ==> out.len() == 0,
            forall|x: usize| out@.contains(x) <==> exists|k: int| 0 <= k < i && sorted@[k] == x,
        decreases sorted.len() - i,
    {
        let x = sorted[i];
        let ghost before = out@;
        if out.len() == 0 || out[out.len() - 1] != x {
            out.push(x);
            assert forall|y: usize| out@.contains(y) <==> exists|k: int|
                0 <= k < i + 1 && sorted@[k] == y by {
                if out@.contains(y) {
                    let m = choose|m: int| 0 <= m < out.len() && out@[m] == y;
                    if m < before.len() {
                        assert(before.contains(y));
                    }
                }
                if exists|k: int| 0 <= k < i + 1 && sorted@[k] == y {
                    let k = choose|k: int| 0 <= k < i + 1 && sorted@[k] == y;
                    if k < i {
                        assert(before.contains(y));
                        let m = choose|m: int| 0 <= m < before.len() && before[m] == y;
                        assert(out@[m] == y);
                    } else {
                        assert(out@[out.len() - 1] == y);
                    }
                }
            }
        } else {
            assert forall|y: usize| out@.contains(y) <==> exists|k: int|
                0 <= k < i + 1 && sorted@[k] == y by {
                if exists|k: int| 0 <= k < i + 1 && sorted@[k] == y {
                    let k = choose|k: int| 0 <= k < i + 1 && sorted@[k] == y;
                    if k == i {
                        assert(out@[out.len() - 1] == y);
                    }
                }
            }
        }
        i += 1;
    }
    assert forall|x: usize| out@.contains(x) <==> frames@.contains(x) by {
        if sorted@.contains(x) {
            let k = choose|k: int| 0 <= k < sorted.len() && sorted@[k] == x;
        }
    }
    out
}

} // verus!

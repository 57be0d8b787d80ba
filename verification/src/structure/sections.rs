//! Section boundaries: dropping novelty peaks too close to the track edges.
use vstd::prelude::*;

verus! {

/// A boundary at frame `i` of an `n`-frame track survives the edge guard
/// when at least `guard` frames lie before it and more than `guard` after it.
pub open spec fn away_from_edges(i: usize, guard: usize, n: usize) -> bool {
    i >= guard && i + guard < n
}

/// Keeps the boundary frames that are away from the track edges, in order.
pub fn guard_boundaries(indices: &Vec<usize>, guard_frames: usize, n: usize) -> (r: Vec<usize>)
    ensures
        r@ == indices@.filter(|i: usize| away_from_edges(i, guard_frames, n)),
{
    let ghost pred = |i: usize| away_from_edges(i, guard_frames, n);
    let mut out: Vec<usize> = Vec::new();
    let mut k: usize = 0;
    while k < indices.len()
        invariant
            k <= indices.len(),
            pred == (|i: usize| away_from_edges(i, guard_frames, n)),
            out@ == indices@.subrange(0, k as int).filter(pred),
        decreases indices.len() - k,
    {
        let i = indices[k];
        let keep = i >= guard_frames && guard_frames < n && i < n - guard_frames;
        proof {
            let s = indices@.subrange(0, k + 1);
            assert(s.drop_last() =~= indices@.subrange(0, k as int));
            assert(s.last() == i);
            reveal_with_fuel(Seq::filter, 1);
            assert(keep == pred(i));
        }
        if keep {
            out.push(i);
        }
        k += 1;
    }
    assert(indices@.subrange(0, indices.len() as int) =~= indices@);
    out
}

} // verus!

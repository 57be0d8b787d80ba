//! Peak selection under a minimum spacing.
use vstd::prelude::*;

verus! {

/// Distance between two frame indices.
pub open spec fn index_dist(a: int, b: int) -> int {
    if a > b {
        a - b
    } else {
        b - a
    }
}

/// Greedy spacing in priority order: candidate `i` is kept when it is at
/// least `min_distance` frames away from every earlier kept candidate.
pub open spec fn selection_mask(candidates: Seq<usize>, min_distance: int) -> Seq<bool>
    decreases candidates.len(),
{
    if candidates.len() == 0 {
        Seq::empty()
    } else {
        let prev = selection_mask(candidates.drop_last(), min_distance);
        let last = candidates.last();
        prev.push(
            forall|j: int|
                0 <= j < prev.len() && #[trigger] prev[j] ==> index_dist(
                    last as int,
                    candidates[j] as int,
                ) >= min_distance,
        )
    }
}

proof fn lemma_selection_mask_len(candidates: Seq<usize>, min_distance: int)
    ensures
        selection_mask(candidates, min_distance).len() == candidates.len(),
    decreases candidates.len(),
{
    if candidates.len() > 0 {
        lemma_selection_mask_len(candidates.drop_last(), min_distance);
    }
}

proof fn lemma_selection_mask_prefix(candidates: Seq<usize>, min_distance: int, k: int)
    requires
        0 <= k <= candidates.len(),
    ensures
        selection_mask(candidates, min_distance).subrange(0, k) == selection_mask(
            candidates.subrange(0, k),
            min_distance,
        ),
    decreases candidates.len() - k,
{
    lemma_selection_mask_len(candidates, min_distance);
    if k < candidates.len() {
        lemma_selection_mask_prefix(candidates, min_distance, k + 1);
        let c1 = candidates.subrange(0, k + 1);
        assert(c1.drop_last() =~= candidates.subrange(0, k));
        lemma_selection_mask_len(c1, min_distance);
        assert(selection_mask(candidates, min_distance).subrange(0, k) =~= selection_mask(
            candidates,
            min_distance,
        ).subrange(0, k + 1).subrange(0, k));
    } else {
        assert(candidates.subrange(0, k) =~= candidates);
        assert(selection_mask(candidates, min_distance).subrange(0, k) =~= selection_mask(
            candidates,
            min_distance,
        ));
    }
}

/// Which candidates (given in priority order, best first) survive the
/// minimum spacing: `r[i]` is true when candidate `i` lies at least
/// `min_distance` frames from every earlier kept candidate.
pub fn select_separated(candidates: &Vec<usize>, min_distance: usize) -> (r: Vec<bool>)
    ensures
        r@ == selection_mask(candidates@, min_distance as int),
        r.len() == candidates.len(),
        forall|i: int|
            0 <= i < r.len() ==> (#[trigger] r@[i] <==> forall|j: int|
                0 <= j < i && r@[j] ==> index_dist(
                    candidates@[i] as int,
                    candidates@[j] as int,
                ) >= min_distance),
{
    let ghost md = min_distance as int;
    let mut keep: Vec<bool> = Vec::new();
    let mut i: usize = 0;
    while i < candidates.len()
        invariant
            i <= candidates.len(),
            md == min_distance as int,
            keep@ == selection_mask(candidates@.subrange(0, i as int), md),
        decreases candidates.len() - i,
    {
        proof {
            lemma_selection_mask_len(candidates@.subrange(0, i as int), md);
        }
        let p = candidates[i];
        let mut ok = true;
        let mut j: usize = 0;
        while j < i
            invariant
                j <= i,
                i < candidates.len(),
                keep.len() == i,
                ok <==> forall|m: int|
                    0 <= m < j && #[trigger] keep@[m] ==> index_dist(
                        p as int,
                        candidates@[m] as int,
                    ) >= min_distance,
                p == candidates@[i as int],
            decreases i - j,
        {
            if keep[j] {
                let q = candidates[j];
                let d = if p > q {
                    p - q
                } else {
                    q - p
                };
                if d < min_distance {
                    ok = false;
                }
            }
            j += 1;
        }
        proof {
            let c1 = candidates@.subrange(0, i + 1);
            assert(c1.drop_last() =~= candidates@.subrange(0, i as int));
            assert(c1.last() == p);
            assert forall|m: int| 0 <= m < i implies c1[m] == candidates@[m] by {}
        }
        keep.push(ok);
        proof {
            let c1 = candidates@.subrange(0, i + 1);
            assert(keep@ =~= selection_mask(c1, md));
        }
        i += 1;
    }
    proof {
        assert(candidates@.subrange(0, candidates.len() as int) =~= candidates@);
        lemma_selection_mask_len(candidates@, md);
        assert forall|i: int| 0 <= i < keep.len() implies (#[trigger] keep@[i] <==> forall|j: int|
            0 <= j < i && keep@[j] ==> index_dist(candidates@[i] as int, candidates@[j] as int)
                >= min_distance) by {
            lemma_selection_mask_prefix(candidates@, md, i + 1);
            let c1 = candidates@.subrange(0, i + 1);
            lemma_selection_mask_len(c1, md);
            lemma_selection_mask_len(c1.drop_last(), md);
            assert(c1.drop_last() =~= candidates@.subrange(0, i));
            lemma_selection_mask_prefix(candidates@, md, i);
            let full = selection_mask(candidates@, md);
            assert(full.subrange(0, i + 1)[i] == full[i]);
            assert forall|j: int| 0 <= j < i implies selection_mask(c1.drop_last(), md)[j]
                == full[j] && c1[j] == candidates@[j] by {
                assert(full.subrange(0, i)[j] == full[j]);
            }
        }
    }
    keep
}

/// The neighborhood of index `i` within `radius` on each side, clipped to
/// `[0, n)`: `(i - radius` saturating at 0, `min(i + radius + 1, n))`.
pub fn neighborhood(i: usize, radius: usize, n: usize) -> (r: (usize, usize))
    requires
        i + radius + 1 <= usize::MAX,
    ensures
        r.0 == if i > radius {
            (i - radius) as usize
        } else {
            0
        },
        r.1 == if i + radius + 1 < n {
            (i + radius + 1) as usize
        } else {
            n
        },
        i < n ==> r.0 <= i < r.1 <= n,
{
    let start = if i > radius {
        i - radius
    } else {
        0
    };
    let end = if i + radius + 1 < n {
        i + radius + 1
    } else {
        n
    };
    (start, end)
}

/// The kept candidates are pairwise at least `min_distance` frames apart,
/// the first (strongest) candidate is always kept, and every dropped
/// candidate lies closer than `min_distance` to an earlier kept one.
pub proof fn selected_peaks_are_separated(candidates: Seq<usize>, min_distance: int)
    ensures
        ({
            let keep = selection_mask(candidates, min_distance);
            &&& candidates.len() > 0 ==> keep[0]
            &&& forall|i: int, j: int|
                0 <= i < j < candidates.len() && #[trigger] keep[i] && #[trigger] keep[j]
                    ==> index_dist(candidates[i] as int, candidates[j] as int) >= min_distance
            &&& forall|j: int|
                0 <= j < candidates.len() && !#[trigger] keep[j] ==> exists|i: int|
                    0 <= i < j && keep[i] && index_dist(candidates[j] as int, candidates[i] as int)
                        < min_distance
        }),
{
    let keep = selection_mask(candidates, min_distance);
    lemma_selection_mask_len(candidates, min_distance);
    assert forall|i: int, j: int|
        0 <= i < j < candidates.len() && #[trigger] keep[i] && #[trigger] keep[j] implies index_dist(
        candidates[i] as int,
        candidates[j] as int,
    ) >= min_distance by {
        lemma_selection_mask_prefix(candidates, min_distance, j + 1);
        let c1 = candidates.subrange(0, j + 1);
        lemma_selection_mask_len(c1, min_distance);
        lemma_selection_mask_len(c1.drop_last(), min_distance);
        assert(c1.drop_last() =~= candidates.subrange(0, j));
        lemma_selection_mask_prefix(candidates, min_distance, j);
        assert(keep.subrange(0, j + 1)[j] == keep[j]);
        assert(keep.subrange(0, j)[i] == keep[i]);
        assert(c1[i] == candidates[i]);
        assert(index_dist(candidates[j] as int, candidates[i] as int) >= min_distance);
    }
    assert forall|j: int| 0 <= j < candidates.len() && !#[trigger] keep[j] implies exists|i: int|
        0 <= i < j && keep[i] && index_dist(candidates[j] as int, candidates[i] as int)
            < min_distance by {
        lemma_selection_mask_prefix(candidates, min_distance, j + 1);
        let c1 = candidates.subrange(0, j + 1);
        lemma_selection_mask_len(c1, min_distance);
        lemma_selection_mask_len(c1.drop_last(), min_distance);
        assert(c1.drop_last() =~= candidates.subrange(0, j));
        lemma_selection_mask_prefix(candidates, min_distance, j);
        assert(keep.subrange(0, j + 1)[j] == keep[j]);
        let prev = selection_mask(c1.drop_last(), min_distance);
        let i = choose|i: int|
            0 <= i < prev.len() && #[trigger] prev[i] && !(index_dist(
                c1.last() as int,
                c1[i] as int,
            ) >= min_distance);
        assert(keep.subrange(0, j)[i] == keep[i]);
        assert(c1[i] == candidates[i]);
    }
    if candidates.len() > 0 {
        lemma_selection_mask_prefix(candidates, min_distance, 1);
        let c1 = candidates.subrange(0, 1);
        assert(c1.drop_last() =~= Seq::<usize>::empty());
        assert(selection_mask(c1.drop_last(), min_distance) =~= Seq::<bool>::empty());
        assert(selection_mask(c1, min_distance)[0]);
        assert(keep.subrange(0, 1)[0] == keep[0]);
    }
}

} // verus!

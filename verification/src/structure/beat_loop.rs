//! Candidate loop pairs for the beat-synchronized loop finder.
use vstd::prelude::*;

verus! {

/// Loop detection preference: similarity matching versus musical structure.
#[derive(Debug, Clone, Copy, PartialEq, Eq, Structural)]
pub enum LoopPreference {
    /// Optimize for the tightest similarity match.
    Similarity,
    /// Optimize for musical phrase boundaries (power-of-two bar counts).
    MusicalStructure,
    /// Balance between similarity and musical structure.
    Balanced,
}

impl Default for LoopPreference {
    /// Pure similarity matching.
    fn default() -> (p: Self)
        ensures
            p == LoopPreference::Similarity,
    {
        LoopPreference::Similarity
    }
}

/// Distance metrics for beat feature comparison.
#[derive(Debug, Clone, Copy, PartialEq, Eq, Structural)]
pub enum DistanceMetric {
    /// Manhattan (L1) distance
    Manhattan,
    /// Euclidean (L2) distance
    Euclidean,
    /// Cosine distance (1 - cosine similarity)
    Cosine,
}

/// Beats `i < j` (among the first `n_beats`) bound a loop whose length in
/// samples, `beats[j] * hop - beats[i] * hop`, is at least `min_len` and at
/// most `max_len` when one is given.
pub open spec fn loop_pair_ok(
    beats: Seq<usize>,
    n_beats: int,
    hop: int,
    min_len: int,
    max_len: Option<usize>,
    i: int,
    j: int,
) -> bool {
    let len = beats[j] * hop - beats[i] * hop;
    &&& 0 <= i < j < n_beats
    &&& len >= min_len
    &&& (max_len matches Some(m) ==> len <= m)
}

/// Pairs ordered by first beat, then second beat.
pub open spec fn pair_before(p: (usize, usize), q: (usize, usize)) -> bool {
    p.0 < q.0 || (p.0 == q.0 && p.1 < q.1)
}

/// Every admissible loop pair of beats, in order of the first beat and then
/// the second.
pub fn valid_beat_pairs(
    beat_frames: &[usize],
    n_beats: usize,
    hop_size: usize,
    min_length_samples: usize,
    max_length_samples: Option<usize>,
) -> (r: Vec<(usize, usize)>)
    requires
        n_beats <= beat_frames.len(),
        forall|i: int| 0 <= i < n_beats ==> #[trigger] beat_frames@[i] * hop_size <= usize::MAX,
        forall|i: int, j: int|
            0 <= i <= j < n_beats ==> #[trigger] beat_frames@[i] * hop_size <= #[trigger] beat_frames@[j]
                * hop_size,
    ensures
        forall|k: int|
            0 <= k < r.len() ==> loop_pair_ok(
                beat_frames@,
                n_beats as int,
                hop_size as int,
                min_length_samples as int,
                max_length_samples,
                #[trigger] r@[k].0 as int,
                r@[k].1 as int,
            ),
        forall|k: int, m: int| 0 <= k < m < r.len() ==> pair_before(r@[k], r@[m]),
        forall|i: int, j: int|
            loop_pair_ok(
                beat_frames@,
                n_beats as int,
                hop_size as int,
                min_length_samples as int,
                max_length_samples,
                i,
                j,
            ) ==> exists|k: int| 0 <= k < r.len() && #[trigger] r@[k] == (i as usize, j as usize),
{
    let ghost beats = beat_frames@;
    let ghost nb = n_beats as int;
    let ghost hop = hop_size as int;
    let ghost min_len = min_length_samples as int;
    let mut out: Vec<(usize, usize)> = Vec::new();
    let mut i: usize = 0;
    while i < n_beats
        invariant
            beats == beat_frames@,
            nb == n_beats,
            hop == hop_size,
            min_len == min_length_samples,
            n_beats <= beat_frames.len(),
            i <= n_beats,
            forall|a: int| 0 <= a < n_beats ==> #[trigger] beat_frames@[a] * hop_size <= usize::MAX,
            forall|a: int, b: int|
                0 <= a <= b < n_beats ==> #[trigger] beat_frames@[a] * hop_size <= #[trigger] beat_frames@[b]
                    * hop_size,
            forall|k: int|
                0 <= k < out.len() ==> loop_pair_ok(
                    beats,
                    nb,
                    hop,
                    min_len,
                    max_length_samples,
                    #[trigger] out@[k].0 as int,
                    out@[k].1 as int,
                ) && out@[k].0 < i,
            forall|k: int, m: int| 0 <= k < m < out.len() ==> pair_before(out@[k], out@[m]),
            forall|a: int, b: int|
                loop_pair_ok(beats, nb, hop, min_len, max_length_samples, a, b) && a < i ==> exists|
                    k: int,
                | 0 <= k < out.len() && #[trigger] out@[k] == (a as usize, b as usize),
        decreases n_beats - i,
    {
        let ghost before_i = out@;
        let mut j: usize = i + 1;
        while j < n_beats
            invariant
                beats == beat_frames@,
                nb == n_beats,
                hop == hop_size,
                min_len == min_length_samples,
                n_beats <= beat_frames.len(),
                i < n_beats,
                i + 1 <= j <= n_beats,
                before_i.len() <= out.len(),
                forall|k: int| 0 <= k < before_i.len() ==> out@[k] == before_i[k],
                forall|a: int|
                    0 <= a < n_beats ==> #[trigger] beat_frames@[a] * hop_size <= usize::MAX,
                forall|a: int, b: int|
                0 <= a <= b < n_beats ==> #[trigger] beat_frames@[a] * hop_size <= #[trigger] beat_frames@[b]
                    * hop_size,
                forall|k: int|
                    0 <= k < out.len() ==> loop_pair_ok(
                        beats,
                        nb,
                        hop,
                        min_len,
                        max_length_samples,
                        #[trigger] out@[k].0 as int,
                        out@[k].1 as int,
                    ),
                forall|k: int| 0 <= k < before_i.len() ==> (#[trigger] out@[k]).0 < i,
                forall|k: int|
                    before_i.len() <= k < out.len() ==> (#[trigger] out@[k]).0 == i && out@[k].1
                        < j,
                forall|k: int, m: int| 0 <= k < m < out.len() ==> pair_before(out@[k], out@[m]),
                forall|a: int, b: int|
                    loop_pair_ok(beats, nb, hop, min_len, max_length_samples, a, b) && (a < i || (a
                        == i && b < j)) ==> exists|k: int|
                        0 <= k < out.len() && #[trigger] out@[k] == (a as usize, b as usize),
            decreases n_beats - j,
        {
            let sample1 = beat_frames[i] * hop_size;
            let sample2 = beat_frames[j] * hop_size;
            assert(beat_frames@[i as int] * hop_size <= beat_frames@[j as int] * hop_size);
            let length = sample2 - sample1;
            let within_max = match max_length_samples {
                Some(max_len) => length <= max_len,
                None => true,
            };
            let ghost prev = out@;
            if length >= min_length_samples && within_max {
                out.push((i, j));
                proof {
                    assert(out@[out.len() - 1] == (i, j));
                    assert forall|a: int, b: int|
                        loop_pair_ok(beats, nb, hop, min_len, max_length_samples, a, b) && (a < i
                            || (a == i && b < j + 1)) implies exists|k: int|
                        0 <= k < out.len() && #[trigger] out@[k] == (a as usize, b as usize) by {
                        if a == i && b == j {
                            assert(out@[out.len() - 1] == (a as usize, b as usize));
                        } else {
                            let k = choose|k: int|
                                0 <= k < prev.len() && #[trigger] prev[k] == (a as usize, b as usize);
                            assert(out@[k] == prev[k]);
                        }
                    }
                }
            } else {
                proof {
                    assert forall|a: int, b: int|
                        loop_pair_ok(beats, nb, hop, min_len, max_length_samples, a, b) && (a < i
                            || (a == i && b < j + 1)) implies exists|k: int|
                        0 <= k < out.len() && #[trigger] out@[k] == (a as usize, b as usize) by {
                        if a == i && b == j {
                            assert(false);
                        }
                    }
                }
            }
            j += 1;
        }
        i += 1;
    }
    out
}

} // verus!

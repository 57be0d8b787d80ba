//! Adaptive choice between parallel and sequential mapping over `0..n`.
use rayon::iter::{IntoParallelIterator, ParallelIterator};
use vstd::prelude::*;

verus! {

/// Maps `f` over `0..n` on rayon's thread pool with
/// `(0..n).into_par_iter().map(f).collect()`. Rayon collects an indexed
/// parallel iterator into a `Vec` in index order, so element `i` is what
/// `f(i)` returned.
#[verifier::external_body]
fn par_map_indices<T, F>(n: usize, f: F) -> (r: Vec<T>) where T: Send, F: Fn(usize) -> T + Sync + Send
    requires
        forall|i: usize| i < n ==> #[trigger] f.requires((i,)),
    ensures
        r.len() == n,
        forall|i: int| 0 <= i < n ==> f.ensures((i as usize,), #[trigger] r@[i]),
{
    (0..n).into_par_iter().map(f).collect()
}

/// Applies `f` to each index `0..n`: in parallel when `n` exceeds
/// `threshold`, sequentially otherwise. Either way element `i` of the
/// result is a value `f(i)` returns.
pub fn adaptive_map<T, F>(n: usize, threshold: usize, f: F) -> (r: Vec<T>) where
    T: Send,
    F: Fn(usize) -> T + Sync + Send,

    requires
        forall|i: usize| i < n ==> #[trigger] f.requires((i,)),
    ensures
        r.len() == n,
        forall|i: int| 0 <= i < n ==> f.ensures((i as usize,), #[trigger] r@[i]),
{
    if n > threshold {
        par_map_indices(n, f)
    } else {
        let mut out: Vec<T> = Vec::with_capacity(n);
        let mut i: usize = 0;
        while i < n
            invariant
                i <= n,
                out.len() == i,
                forall|k: usize| k < n ==> #[trigger] f.requires((k,)),
                forall|k: int| 0 <= k < i ==> f.ensures((k as usize,), #[trigger] out@[k]),
            decreases n - i,
        {
            let v = f(i);
            out.push(v);
            i += 1;
        }
        out
    }
}

/// `adaptive_map` with a threshold of 10 items.
pub fn auto_map<T, F>(n: usize, f: F) -> (r: Vec<T>) where T: Send, F: Fn(usize) -> T + Sync + Send
    requires
        forall|i: usize| i < n ==> #[trigger] f.requires((i,)),
    ensures
        r.len() == n,
        forall|i: int| 0 <= i < n ==> f.ensures((i as usize,), #[trigger] r@[i]),
{
    adaptive_map(n, 10, f)
}

} // verus!

//! The sign pattern of the checkerboard kernel used for novelty curves.
use vstd::arithmetic::div_mod::lemma_fundamental_div_mod_converse;
use vstd::prelude::*;

verus! {

/// Whether entry `k` of a row-major `size × size` kernel is positive: the
/// upper-left and lower-right quadrants (split at `half_width`) are
/// positive, the other two negative.
pub open spec fn checkerboard_positive(size: int, half_width: int, k: int) -> bool {
    (k / size < half_width) == (k % size < half_width)
}

/// The signs of the `size × size` checkerboard kernel, row-major, `true`
/// for `+1` and `false` for `-1`.
pub fn build_checkerboard_signs(size: usize, half_width: usize) -> (r: Vec<bool>)
    requires
        size * size <= usize::MAX,
    ensures
        r.len() == size * size,
        forall|k: int|
            0 <= k < r.len() ==> #[trigger] r@[k] == checkerboard_positive(
                size as int,
                half_width as int,
                k,
            ),
{
    let mut signs: Vec<bool> = Vec::new();
    let mut row: usize = 0;
    while row < size
        invariant
            row <= size,
            size * size <= usize::MAX,
            signs.len() == row * size,
            forall|k: int|
                0 <= k < signs.len() ==> #[trigger] signs@[k] == checkerboard_positive(
                    size as int,
                    half_width as int,
                    k,
                ),
        decreases size - row,
    {
        let mut col: usize = 0;
        while col < size
            invariant
                row < size,
                col <= size,
                signs.len() == row * size + col,
                forall|k: int|
                    0 <= k < signs.len() ==> #[trigger] signs@[k] == checkerboard_positive(
                        size as int,
                        half_width as int,
                        k,
                    ),
            decreases size - col,
        {
            let positive = (row < half_width) == (col < half_width);
            proof {
                lemma_fundamental_div_mod_converse(
                    (row * size + col) as int,
                    size as int,
                    row as int,
                    col as int,
                );
            }
            signs.push(positive);
            col += 1;
        }
        assert((row + 1) * size == row * size + size) by (nonlinear_arith);
        row += 1;
    }
    signs
}

} // verus!

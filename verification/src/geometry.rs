//! Arithmetic of row-major addressing.

use vstd::arithmetic::div_mod::{
    lemma_div_pos_is_pos, lemma_fundamental_div_mod, lemma_fundamental_div_mod_converse,
    lemma_mod_bound,
};
use vstd::prelude::*;

verus! {

/// A position inside the grid has an index inside the array, and the index
/// gives the position back.
pub proof fn lemma_index_of_position(width: int, height: int, x: int, y: int)
    requires
        0 <= x < width,
        0 <= y < height,
    ensures
        0 <= y * width + x < width * height,
        (y * width + x) % width == x,
        (y * width + x) / width == y,
{
    lemma_fundamental_div_mod_converse(y * width + x, width, y, x);
    assert(y * width + x < width * height) by (nonlinear_arith)
        requires
            0 <= x < width,
            0 <= y < height,
    ;
    assert(0 <= y * width) by (nonlinear_arith)
        requires
            0 <= y,
            0 < width,
    ;
}

/// An index splits into a column below the width and a row, and is put
/// together from them again. An index inside the array has a row inside the
/// grid.
pub proof fn lemma_position_of_index(width: int, height: int, index: int)
    requires
        0 < width,
        0 <= index,
    ensures
        0 <= index % width < width,
        0 <= index / width,
        index == (index / width) * width + index % width,
        index < width * height ==> index / width < height,
{
    lemma_fundamental_div_mod(index, width);
    lemma_mod_bound(index, width);
    lemma_div_pos_is_pos(index, width);
    let row = index / width;
    assert(width * row == row * width) by (nonlinear_arith);
    if index < width * height && row >= height {
        assert(row * width >= height * width) by (nonlinear_arith)
            requires
                row >= height,
                0 < width,
        ;
        assert(height * width == width * height) by (nonlinear_arith);
    }
}

} // verus!

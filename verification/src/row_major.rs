//! Positions in row-major planes: the element in column `x` of row `y` of a
//! `width`-wide plane stands at `y * width + x`.
use vstd::prelude::*;

verus! {

/// The element in column `x` of row `y` of a row-major plane stands at
/// `y * width + x`, and that index gives the column and the row back.
pub proof fn lemma_index_of(width: int, height: int, x: int, y: int)
    requires
        0 <= x < width,
        0 <= y < height,
    ensures
        0 <= y * width + x < width * height,
        (y * width + x) % width == x,
        (y * width + x) / width == y,
        (y + 1) * width == y * width + width,
        (y + 1) * width <= width * height,
        0 <= y * width,
{
    assert(0 <= y * width) by (nonlinear_arith)
        requires
            0 <= x < width,
            0 <= y,
    ;
    assert((y + 1) * width == y * width + width) by (nonlinear_arith);
    assert((y + 1) * width <= width * height) by (nonlinear_arith)
        requires
            0 <= y < height,
            0 < width,
    ;
    vstd::arithmetic::div_mod::lemma_fundamental_div_mod_converse(y * width + x, width, y, x);
}

/// Every index of a row-major plane has a column and a row in range.
pub proof fn lemma_position_of(width: int, height: int, i: int)
    requires
        0 <= i < width * height,
        0 <= width,
    ensures
        0 < width,
        0 <= i % width < width,
        0 <= i / width < height,
        i == (i / width) * width + i % width,
{
    assert(0 < width) by (nonlinear_arith)
        requires
            0 <= i < width * height,
            0 <= width,
    ;
    vstd::arithmetic::div_mod::lemma_fundamental_div_mod(i, width);
    let q = i / width;
    let r = i % width;
    assert(width * q == q * width) by (nonlinear_arith);
    assert(0 <= q < height) by (nonlinear_arith)
        requires
            0 <= i < width * height,
            i == q * width + r,
            0 <= r < width,
    ;
}

/// The row of an index follows from the bounds of that row.
pub proof fn lemma_row_of(width: int, i: int, y: int)
    requires
        y * width <= i < y * width + width,
    ensures
        i / width == y,
        i % width == i - y * width,
{
    vstd::arithmetic::div_mod::lemma_fundamental_div_mod_converse(i, width, y, i - y * width);
}

} // verus!

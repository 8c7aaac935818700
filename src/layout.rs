//! Arithmetic facts about row-major offsets `row * width + col`.
use vstd::prelude::*;

verus! {

/// The offset of an in-range cell lies inside the buffer and splits back
/// into its row and column.
pub proof fn lemma_cell(i: int, j: int, w: int, h: int)
    requires
        0 <= i < h,
        0 <= j < w,
    ensures
        0 <= i * w + j < h * w,
        i * w + w <= h * w,
        (i * w + j) / w == i,
        (i * w + j) % w == j,
{
    assert(i * w + w <= h * w) by (nonlinear_arith)
        requires
            0 <= i < h,
            0 <= j < w,
    ;
    assert(0 <= i * w) by (nonlinear_arith)
        requires
            0 <= i,
            0 <= j < w,
    ;
    vstd::arithmetic::div_mod::lemma_fundamental_div_mod_converse(i * w + j, w, i, j);
}

/// Row `i` of an `h`-by-`w` buffer ends inside it.
pub proof fn lemma_row_end(i: int, w: int, h: int)
    requires
        0 <= i < h,
        0 <= w,
    ensures
        0 <= i * w,
        i * w + w <= h * w,
{
    assert(0 <= i * w && i * w + w <= h * w) by (nonlinear_arith)
        requires
            0 <= i < h,
            0 <= w,
    ;
}

/// Every offset inside an `h`-by-`w` buffer is the offset of a cell.
pub proof fn lemma_split(k: int, w: int, h: int)
    requires
        0 <= w,
        0 <= h,
        0 <= k < h * w,
    ensures
        w > 0,
        0 <= k / w < h,
        0 <= k % w < w,
        k == (k / w) * w + k % w,
{
    assert(w > 0) by (nonlinear_arith)
        requires
            0 <= k < h * w,
            0 <= w,
            0 <= h,
    ;
    vstd::arithmetic::div_mod::lemma_fundamental_div_mod(k, w);
    vstd::arithmetic::div_mod::lemma_div_pos_is_pos(k, w);
    assert(k / w < h) by {
        if k / w >= h {
            vstd::arithmetic::mul::lemma_mul_inequality(h, k / w, w);
            vstd::arithmetic::mul::lemma_mul_is_commutative(w, k / w);
        }
    }
    vstd::arithmetic::mul::lemma_mul_is_commutative(w, k / w);
}

} // verus!

use vstd::prelude::*;

verus! {

/// Pixel `n` of a raster of `w` by `h` pixels lies in one of its rows.
pub(crate) proof fn lemma_row_of(n: int, w: int, h: int)
    requires
        0 <= n < w * h,
        0 <= w,
        0 <= h,
    ensures
        0 <= n / w < h,
{
    assert(w > 0) by (nonlinear_arith)
        requires
            0 <= n < w * h,
            0 <= w,
    ;
    assert(n < h * w) by (nonlinear_arith)
        requires
            n < w * h,
    ;
    vstd::arithmetic::div_mod::lemma_div_pos_is_pos(n, w);
    vstd::arithmetic::div_mod::lemma_multiply_divide_lt(n, w, h);
}

/// Products grow with their first factor.
pub(crate) proof fn lemma_mul_le(a: int, b: int, m: int)
    by (nonlinear_arith)
    requires
        a <= b,
        0 <= m,
    ensures
        a * m <= b * m,
{
}

/// A product with a known factor.
pub(crate) proof fn lemma_known_factor(bits: int, w: int, known: int)
    by (nonlinear_arith)
    requires
        bits == known,
    ensures
        bits * w == known * w,
{
}

/// Where the scanlines of a buffer lie: scanline `r` ends where scanline
/// `r + 1` starts, and before any later one.
pub(crate) proof fn lemma_rows(r: int, y: int, row_size: int)
    by (nonlinear_arith)
    requires
        0 <= r < y,
        0 <= row_size,
    ensures
        (r + 1) * row_size == r * row_size + row_size,
        (r + 1) * row_size <= y * row_size,
        0 <= r * row_size,
{
}

} // verus!

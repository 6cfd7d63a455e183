use vstd::prelude::*;

verus! {

/// Row-major position of `(y, x)` in a plane `width` samples wide.
pub open spec fn plane_index(width: int, y: int, x: int) -> int {
    y * width + x
}

pub proof fn lemma_plane_index_bounds(width: int, height: int, y: int, x: int)
    requires
        0 <= y < height,
        0 <= x < width,
    ensures
        0 <= plane_index(width, y, x) < height * width,
        plane_index(width, y, x) < width * height,
        height * width == width * height,
        plane_index(width, y, x) + 1 <= height * width,
        plane_index(width, y, x) < (y + 1) * width,
        y * width <= plane_index(width, y, x),
{
    assert(0 <= y * width) by (nonlinear_arith)
        requires
            0 <= y,
            0 <= x < width,
    ;
    assert(y * width + x < (y + 1) * width) by (nonlinear_arith)
        requires
            x < width,
    ;
    assert((y + 1) * width <= height * width) by (nonlinear_arith)
        requires
            y + 1 <= height,
            0 <= x < width,
    ;
    assert(height * width == width * height) by (nonlinear_arith);
}

pub proof fn lemma_plane_row_step(width: int, y: int)
    ensures
        y * width + width == (y + 1) * width,
{
    assert(y * width + width == (y + 1) * width) by (nonlinear_arith);
}

pub proof fn lemma_plane_index_inverse(width: int, y: int, x: int)
    requires
        0 <= y,
        0 <= x < width,
    ensures
        plane_index(width, y, x) / width == y,
        plane_index(width, y, x) % width == x,
{
    vstd::arithmetic::div_mod::lemma_fundamental_div_mod_converse(
        plane_index(width, y, x),
        width,
        y,
        x,
    );
}

} // verus!

use vstd::prelude::*;

verus! {

/// Fixed-point units per map cell: a coordinate of `SCALE` is one cell.
pub const SCALE: i64 = 1000;

/// Distance a ray advances per probe: a tenth of a cell.
pub const RAY_STEP: i64 = 100;

/// Largest map side, in cells.
pub const MAX_MAP_SIDE: usize = 1024;

/// Largest screen side, in character cells.
pub const MAX_SCREEN_SIDE: usize = 4096;

/// Row-major index of a cell in a grid of `w` columns stays inside the grid.
pub proof fn lemma_grid_index(col: int, row: int, w: int, h: int)
    requires
        0 <= col < w,
        0 <= row < h,
        w <= MAX_SCREEN_SIDE,
        h <= MAX_SCREEN_SIDE,
    ensures
        0 <= row * w,
        row * w + w <= w * h,
        w * h <= MAX_SCREEN_SIDE * MAX_SCREEN_SIDE,
{
    assert(0 <= row * w && row * w + w <= w * h && w * h <= 1024 * 1024 * 16) by (nonlinear_arith)
        requires
            0 <= col < w,
            0 <= row < h,
            w <= 1024 * 4,
            h <= 1024 * 4,
    ;
}

/// Distinct cells of a grid of `w` columns have distinct row-major indices.
pub proof fn lemma_grid_index_injective(c1: int, r1: int, c2: int, r2: int, w: int)
    requires
        0 <= c1 < w,
        0 <= c2 < w,
        0 <= r1,
        0 <= r2,
        r1 * w + c1 == r2 * w + c2,
    ensures
        c1 == c2,
        r1 == r2,
{
    if r1 < r2 {
        assert(r1 * w + w <= r2 * w) by (nonlinear_arith)
            requires
                r1 < r2,
                0 <= w,
        ;
    } else if r2 < r1 {
        assert(r2 * w + w <= r1 * w) by (nonlinear_arith)
            requires
                r2 < r1,
                0 <= w,
        ;
    }
}

} // verus!

//! Moves made of several elementary ones: each pattern summed over the four
//! directions of an axis class, and the two area moves of the lion.

use vstd::prelude::*;
use crate::direction::{AxisClass, Direction};
use crate::grid::{Grid, Square, BOARD_WIDTH};
use crate::moves::{
    dove, dove_count, flying_capture, flying_capture_count, flying_jump, flying_jump_count, hook,
    hook_count, jump_count, jump_n, jump_then_range, jump_then_range_count, land, landing,
    lemma_flying_jump_count_bounds, lemma_hook_count_bounds, lemma_ray_count_bounds,
    lemma_step_count_bounds, range, range_count, step_count, step_n, HOOK_MAX, WHOLE_BOARD,
};

verus! {

/// Leaps over this many occupied cells are open to a leaping slide.
pub const FLYING_JUMPS: i64 = 3;

/// The line-cast of up to `n` steps, over the four directions of `axis`.
pub open spec fn step_axis_count(g: Seq<Square>, x: int, y: int, axis: AxisClass, n: int) -> int {
    axis.sum(|d: Direction| step_count(g, x, y, d, n))
}

/// The single jump of `n` steps, over the four directions of `axis`.
pub open spec fn jump_axis_count(g: Seq<Square>, x: int, y: int, axis: AxisClass, n: int) -> int {
    axis.sum(|d: Direction| jump_count(g, x, y, d, n))
}

/// The unlimited line-cast, over the four directions of `axis`.
pub open spec fn range_axis_count(g: Seq<Square>, x: int, y: int, axis: AxisClass) -> int {
    axis.sum(|d: Direction| range_count(g, x, y, d))
}

/// The leaping slide across the whole board with the usual number of leaps,
/// over the four directions of `axis`.
pub open spec fn flying_jump_axis_count(g: Seq<Square>, x: int, y: int, axis: AxisClass) -> int {
    axis.sum(
        |d: Direction| flying_jump_count(g, x, y, d, WHOLE_BOARD as int, FLYING_JUMPS as int),
    )
}

/// The flying capture, over the four directions of `axis`.
pub open spec fn flying_capture_axis_count(
    g: Seq<Square>,
    x: int,
    y: int,
    axis: AxisClass,
) -> int {
    axis.sum(|d: Direction| flying_capture_count(g, x, y, d))
}

/// The bent slide across the whole board, over the four directions of `axis`.
pub open spec fn hook_axis_count(g: Seq<Square>, x: int, y: int, axis: AxisClass) -> int {
    axis.sum(|d: Direction| hook_count(g, x, y, d, WHOLE_BOARD as int))
}

/// The jump followed by a slide, over the four directions of `axis`.
pub open spec fn jump_then_range_axis_count(
    g: Seq<Square>,
    x: int,
    y: int,
    axis: AxisClass,
) -> int {
    axis.sum(|d: Direction| jump_then_range_count(g, x, y, d))
}

/// The dove move, over the four diagonal directions.
pub open spec fn dove_moves_count(g: Seq<Square>, x: int, y: int) -> int {
    AxisClass::Diagonal.sum(|d: Direction| dove_count(g, x, y, d))
}

/// What the first `k` cells of the five by five block around `(x, y)` offer
/// for landing, row by row and without the cell in the middle.
pub open spec fn block_reach(g: Seq<Square>, x: int, y: int, k: int) -> int
    decreases k,
{
    if k <= 0 {
        0
    } else {
        let c = k - 1;
        block_reach(g, x, y, c) + if c == 12 {
            0
        } else {
            landing(g, x + c % 5 - 2, y + c / 5 - 2)
        }
    }
}

/// The cells within two steps of `(x, y)`, in any direction, on which a piece
/// could land.
pub open spec fn lion_reach(g: Seq<Square>, x: int, y: int) -> int {
    block_reach(g, x, y, 25)
}

/// The cells reached from `(x, y)` by a single jump of one, two or three steps
/// along any of the eight directions.
pub open spec fn limited_reach(g: Seq<Square>, x: int, y: int) -> int {
    jump_axis_count(g, x, y, AxisClass::Orthogonal, 1) + jump_axis_count(
        g,
        x,
        y,
        AxisClass::Diagonal,
        1,
    ) + jump_axis_count(g, x, y, AxisClass::Orthogonal, 2) + jump_axis_count(
        g,
        x,
        y,
        AxisClass::Diagonal,
        2,
    ) + jump_axis_count(g, x, y, AxisClass::Orthogonal, 3) + jump_axis_count(
        g,
        x,
        y,
        AxisClass::Diagonal,
        3,
    )
}

/// A move that can land anywhere is credited once more for existing; one that
/// can land nowhere is worth nothing.
pub open spec fn with_credit(reach: int) -> int {
    if reach > 0 {
        reach + 1
    } else {
        0
    }
}

/// The block around a cell offers between nothing and one landing per cell.
pub proof fn lemma_block_reach_bounds(g: Seq<Square>, x: int, y: int, k: int)
    ensures
        0 <= block_reach(g, x, y, k),
        block_reach(g, x, y, k) <= if k > 0 { k } else { 0 },
        k > 12 ==> block_reach(g, x, y, k) <= k - 1,
    decreases k,
{
    if k > 0 {
        lemma_block_reach_bounds(g, x, y, k - 1);
    }
}

/// Summed over the four directions of an axis class, a line-cast counts at
/// most four lines of interior cells and a single jump at most four cells.
pub proof fn lemma_step_jump_axis_bounds(g: Seq<Square>, x: int, y: int, axis: AxisClass, n: int)
    ensures
        0 <= step_axis_count(g, x, y, axis, n) <= 4 * (BOARD_WIDTH - 2),
        0 <= jump_axis_count(g, x, y, axis, n) <= 4,
{
    let d = axis.spec_directions();
    lemma_step_count_bounds(g, x, y, d[0], n);
    lemma_step_count_bounds(g, x, y, d[1], n);
    lemma_step_count_bounds(g, x, y, d[2], n);
    lemma_step_count_bounds(g, x, y, d[3], n);
}

/// Summed over the four directions of an axis class, the slides along a ray
/// count at most four lines of interior cells.
pub proof fn lemma_slide_axis_bounds(g: Seq<Square>, x: int, y: int, axis: AxisClass)
    ensures
        0 <= range_axis_count(g, x, y, axis) <= 4 * (BOARD_WIDTH - 2),
        0 <= flying_jump_axis_count(g, x, y, axis) <= 4 * (BOARD_WIDTH - 2),
        0 <= flying_capture_axis_count(g, x, y, axis) <= 4 * (BOARD_WIDTH - 2),
{
    let d = axis.spec_directions();
    lemma_step_jump_axis_bounds(g, x, y, axis, WHOLE_BOARD as int);
    lemma_flying_jump_count_bounds(g, x, y, d[0], WHOLE_BOARD as int, FLYING_JUMPS as int);
    lemma_flying_jump_count_bounds(g, x, y, d[1], WHOLE_BOARD as int, FLYING_JUMPS as int);
    lemma_flying_jump_count_bounds(g, x, y, d[2], WHOLE_BOARD as int, FLYING_JUMPS as int);
    lemma_flying_jump_count_bounds(g, x, y, d[3], WHOLE_BOARD as int, FLYING_JUMPS as int);
    lemma_ray_count_bounds(g, x, y, d[0]);
    lemma_ray_count_bounds(g, x, y, d[1]);
    lemma_ray_count_bounds(g, x, y, d[2]);
    lemma_ray_count_bounds(g, x, y, d[3]);
}

/// Summed over the four directions of an axis class, the bent slide counts at
/// most four times `HOOK_MAX`, and the jump followed by a slide at most eight
/// lines of interior cells.
pub proof fn lemma_bent_axis_bounds(g: Seq<Square>, x: int, y: int, axis: AxisClass)
    ensures
        0 <= hook_axis_count(g, x, y, axis) <= 4 * HOOK_MAX,
        0 <= jump_then_range_axis_count(g, x, y, axis) <= 8 * (BOARD_WIDTH - 2),
{
    let d = axis.spec_directions();
    let n = WHOLE_BOARD as int;
    lemma_hook_count_bounds(g, x, y, d[0], n);
    lemma_hook_count_bounds(g, x, y, d[1], n);
    lemma_hook_count_bounds(g, x, y, d[2], n);
    lemma_hook_count_bounds(g, x, y, d[3], n);
    lemma_step_jump_axis_bounds(g, x, y, axis, n);
    lemma_step_count_bounds(g, x + d[0].spec_dx(), y + d[0].spec_dy(), d[0], n);
    lemma_step_count_bounds(g, x + d[1].spec_dx(), y + d[1].spec_dy(), d[1], n);
    lemma_step_count_bounds(g, x + d[2].spec_dx(), y + d[2].spec_dy(), d[2], n);
    lemma_step_count_bounds(g, x + d[3].spec_dx(), y + d[3].spec_dy(), d[3], n);
    lemma_step_count_bounds(g, x, y, d[0], n);
    lemma_step_count_bounds(g, x, y, d[1], n);
    lemma_step_count_bounds(g, x, y, d[2], n);
    lemma_step_count_bounds(g, x, y, d[3], n);
}

/// The dove moves count at most three cells on each diagonal.
pub proof fn lemma_dove_moves_bounds(g: Seq<Square>, x: int, y: int)
    ensures
        0 <= dove_moves_count(g, x, y) <= 12,
{
    let d = AxisClass::Diagonal.spec_directions();
    lemma_step_count_bounds(g, x + 3 * d[0].spec_dx(), y + 3 * d[0].spec_dy(), d[0], 3);
    lemma_step_count_bounds(g, x + 3 * d[1].spec_dx(), y + 3 * d[1].spec_dy(), d[1], 3);
    lemma_step_count_bounds(g, x + 3 * d[2].spec_dx(), y + 3 * d[2].spec_dy(), d[2], 3);
    lemma_step_count_bounds(g, x + 3 * d[3].spec_dx(), y + 3 * d[3].spec_dy(), d[3], 3);
}

/// Either lion move reaches at most the twenty-four cells that it looks at,
/// and so counts at most one more than that.
pub proof fn lemma_lion_bounds(g: Seq<Square>, x: int, y: int)
    ensures
        0 <= lion_reach(g, x, y) <= 24,
        0 <= limited_reach(g, x, y) <= 24,
        0 <= with_credit(lion_reach(g, x, y)) <= 25,
        0 <= with_credit(limited_reach(g, x, y)) <= 25,
{
    lemma_block_reach_bounds(g, x, y, 25);
    assert(0 <= limited_reach(g, x, y) <= 24) by {
        lemma_step_jump_axis_bounds(g, x, y, AxisClass::Orthogonal, 1);
        lemma_step_jump_axis_bounds(g, x, y, AxisClass::Diagonal, 1);
        lemma_step_jump_axis_bounds(g, x, y, AxisClass::Orthogonal, 2);
        lemma_step_jump_axis_bounds(g, x, y, AxisClass::Diagonal, 2);
        lemma_step_jump_axis_bounds(g, x, y, AxisClass::Orthogonal, 3);
        lemma_step_jump_axis_bounds(g, x, y, AxisClass::Diagonal, 3);
    }
}

/// Line-casts of up to `n` steps from `(x, y)` in the four directions of
/// `axis`, added up.
pub fn step_n_axis(grid: &Grid, x: i64, y: i64, axis: AxisClass, n: i64) -> (count: i64)
    ensures
        count == step_axis_count(grid@, x as int, y as int, axis, n as int),
        0 <= count <= 4 * (BOARD_WIDTH - 2),
{
    let d = axis.directions();
    step_n(grid, x, y, d[0], n) + step_n(grid, x, y, d[1], n) + step_n(grid, x, y, d[2], n)
        + step_n(grid, x, y, d[3], n)
}

/// Single jumps of `n` steps from `(x, y)` in the four directions of `axis`,
/// added up.
pub fn jump_n_axis(grid: &Grid, x: i64, y: i64, axis: AxisClass, n: i64) -> (count: i64)
    ensures
        count == jump_axis_count(grid@, x as int, y as int, axis, n as int),
        0 <= count <= 4,
{
    let d = axis.directions();
    jump_n(grid, x, y, d[0], n) + jump_n(grid, x, y, d[1], n) + jump_n(grid, x, y, d[2], n)
        + jump_n(grid, x, y, d[3], n)
}

/// Unlimited line-casts from `(x, y)` in the four directions of `axis`, added
/// up.
pub fn range_axis(grid: &Grid, x: i64, y: i64, axis: AxisClass) -> (count: i64)
    ensures
        count == range_axis_count(grid@, x as int, y as int, axis),
        0 <= count <= 4 * (BOARD_WIDTH - 2),
{
    let d = axis.directions();
    range(grid, x, y, d[0]) + range(grid, x, y, d[1]) + range(grid, x, y, d[2]) + range(
        grid,
        x,
        y,
        d[3],
    )
}

/// Leaping slides from `(x, y)` in the four directions of `axis`, added up.
pub fn flying_jump_axis(grid: &Grid, x: i64, y: i64, axis: AxisClass) -> (count: i64)
    ensures
        count == flying_jump_axis_count(grid@, x as int, y as int, axis),
        0 <= count <= 4 * (BOARD_WIDTH - 2),
{
    let d = axis.directions();
    flying_jump(grid, x, y, d[0], WHOLE_BOARD, FLYING_JUMPS) + flying_jump(
        grid,
        x,
        y,
        d[1],
        WHOLE_BOARD,
        FLYING_JUMPS,
    ) + flying_jump(grid, x, y, d[2], WHOLE_BOARD, FLYING_JUMPS) + flying_jump(
        grid,
        x,
        y,
        d[3],
        WHOLE_BOARD,
        FLYING_JUMPS,
    )
}

/// Flying captures from `(x, y)` in the four directions of `axis`, added up.
pub fn flying_capture_axis(grid: &Grid, x: i64, y: i64, axis: AxisClass) -> (count: i64)
    ensures
        count == flying_capture_axis_count(grid@, x as int, y as int, axis),
        0 <= count <= 4 * (BOARD_WIDTH - 2),
{
    let d = axis.directions();
    flying_capture(grid, x, y, d[0]) + flying_capture(grid, x, y, d[1]) + flying_capture(
        grid,
        x,
        y,
        d[2],
    ) + flying_capture(grid, x, y, d[3])
}

/// Bent slides from `(x, y)` in the four directions of `axis`, added up.
pub fn hook_axis(grid: &Grid, x: i64, y: i64, axis: AxisClass) -> (count: i64)
    ensures
        count == hook_axis_count(grid@, x as int, y as int, axis),
        0 <= count <= 4 * HOOK_MAX,
{
    let d = axis.directions();
    hook(grid, x, y, d[0], WHOLE_BOARD) + hook(grid, x, y, d[1], WHOLE_BOARD) + hook(
        grid,
        x,
        y,
        d[2],
        WHOLE_BOARD,
    ) + hook(grid, x, y, d[3], WHOLE_BOARD)
}

/// Jumps followed by a slide from `(x, y)` in the four directions of `axis`,
/// added up.
pub fn jump_then_range_axis(grid: &Grid, x: i64, y: i64, axis: AxisClass) -> (count: i64)
    ensures
        count == jump_then_range_axis_count(grid@, x as int, y as int, axis),
        0 <= count <= 8 * (BOARD_WIDTH - 2),
{
    let d = axis.directions();
    jump_then_range(grid, x, y, d[0]) + jump_then_range(grid, x, y, d[1]) + jump_then_range(
        grid,
        x,
        y,
        d[2],
    ) + jump_then_range(grid, x, y, d[3])
}

/// Dove moves from `(x, y)` in the four diagonal directions, added up.
pub fn dove_moves(grid: &Grid, x: i64, y: i64) -> (count: i64)
    ensures
        count == dove_moves_count(grid@, x as int, y as int),
        0 <= count <= 12,
{
    let d = AxisClass::Diagonal.directions();
    dove(grid, x, y, d[0]) + dove(grid, x, y, d[1]) + dove(grid, x, y, d[2]) + dove(
        grid,
        x,
        y,
        d[3],
    )
}

/// The full lion: one for every cell within two steps of `(x, y)` on which a
/// piece could land, and one more if there is any.
pub fn full_lion(grid: &Grid, x: i64, y: i64) -> (count: i64)
    ensures
        count == with_credit(lion_reach(grid@, x as int, y as int)),
        0 <= lion_reach(grid@, x as int, y as int) <= 24,
        lion_reach(grid@, x as int, y as int) == 0 ==> count == 0,
        lion_reach(grid@, x as int, y as int) > 0 ==> count == lion_reach(
            grid@,
            x as int,
            y as int,
        ) + 1,
{
    let mut total: i64 = 0;
    let mut k: i64 = 0;
    while k < 25
        invariant
            0 <= k <= 25,
            total == block_reach(grid@, x as int, y as int, k as int),
            0 <= total <= k,
        decreases 25 - k,
    {
        if k != 12 {
            let tx: i128 = x as i128 + (k % 5 - 2) as i128;
            let ty: i128 = y as i128 + (k / 5 - 2) as i128;
            total = total + land(grid, tx, ty);
        }
        k = k + 1;
    }
    proof {
        lemma_block_reach_bounds(grid@, x as int, y as int, 25);
    }
    if total > 0 {
        total + 1
    } else {
        0
    }
}

/// The limited lion: one for every cell that a single jump of one, two or
/// three steps from `(x, y)` can land on, and one more if there is any.
pub fn limited_lion(grid: &Grid, x: i64, y: i64) -> (count: i64)
    ensures
        count == with_credit(limited_reach(grid@, x as int, y as int)),
        0 <= limited_reach(grid@, x as int, y as int) <= 24,
        limited_reach(grid@, x as int, y as int) == 0 ==> count == 0,
        limited_reach(grid@, x as int, y as int) > 0 ==> count == limited_reach(
            grid@,
            x as int,
            y as int,
        ) + 1,
{
    let mut total: i64 = 0;
    let mut n: i64 = 1;
    while n <= 3
        invariant
            1 <= n <= 4,
            0 <= total <= 8 * (n - 1),
            n == 1 ==> total == 0,
            n == 2 ==> total == jump_axis_count(grid@, x as int, y as int, AxisClass::Orthogonal, 1)
                + jump_axis_count(grid@, x as int, y as int, AxisClass::Diagonal, 1),
            n == 3 ==> total == jump_axis_count(grid@, x as int, y as int, AxisClass::Orthogonal, 1)
                + jump_axis_count(grid@, x as int, y as int, AxisClass::Diagonal, 1)
                + jump_axis_count(grid@, x as int, y as int, AxisClass::Orthogonal, 2)
                + jump_axis_count(grid@, x as int, y as int, AxisClass::Diagonal, 2),
            n == 4 ==> total == limited_reach(grid@, x as int, y as int),
        decreases 4 - n,
    {
        total = total + jump_n_axis(grid, x, y, AxisClass::Orthogonal, n);
        total = total + jump_n_axis(grid, x, y, AxisClass::Diagonal, n);
        n = n + 1;
    }
    if total > 0 {
        total + 1
    } else {
        0
    }
}

} // verus!

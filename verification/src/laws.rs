//! What holds of the movement patterns on every board.

use vstd::prelude::*;
use crate::direction::Direction;
use crate::grid::{on_board, Square, BOARD_WIDTH};
use crate::moves::{
    flying_capture_count, flying_jump_count, hook_count, interior, jump_count,
    lemma_step_count_bounds, pieces_count, range_count, room, square_at, step_count, WHOLE_BOARD,
};

verus! {

/// `(x, y)` lies on the outermost ring of the board.
pub open spec fn on_ring(x: int, y: int) -> bool {
    on_board(x, y) && !interior(x, y)
}

/// From a cell on the outermost ring, no slide along a direction that does
/// not lead into the interior counts anything, whatever stands on the board
/// and however many steps or leaps the slide may take.
pub proof fn law_ring_cell_slides_nowhere(
    g: Seq<Square>,
    x: int,
    y: int,
    dir: Direction,
    n: int,
    jumps: int,
)
    requires
        on_ring(x, y),
        !interior(x + dir.spec_dx(), y + dir.spec_dy()),
    ensures
        step_count(g, x, y, dir, n) == 0,
        range_count(g, x, y, dir) == 0,
        flying_jump_count(g, x, y, dir, n, jumps) == 0,
        flying_capture_count(g, x, y, dir) == 0,
        pieces_count(g, x, y, dir) == 0,
        hook_count(g, x, y, dir, n) == 0,
{
}

/// A slide counts nothing exactly if it may take no step, if its first step
/// leaves the interior, or if a friendly piece stands in its way at once; a
/// jump counts nothing exactly if it lands outside the interior or on a
/// friendly piece. So a cell on the outermost ring counts nothing along a
/// direction unless that direction leads it into the interior, onto a cell
/// that is not held by a friendly piece.
pub proof fn law_border_policy(g: Seq<Square>, x: int, y: int, dir: Direction, n: int)
    ensures
        step_count(g, x, y, dir, n) == 0 <==> n <= 0 || !interior(
            x + dir.spec_dx(),
            y + dir.spec_dy(),
        ) || square_at(g, x + dir.spec_dx(), y + dir.spec_dy()) == Square::Friendly,
        jump_count(g, x, y, dir, n) == 0 <==> !interior(
            x + n * dir.spec_dx(),
            y + n * dir.spec_dy(),
        ) || square_at(g, x + n * dir.spec_dx(), y + n * dir.spec_dy()) == Square::Friendly,
{
    lemma_step_count_bounds(g, x + dir.spec_dx(), y + dir.spec_dy(), dir, n - 1);
}

/// The four orthogonal neighbours of `(x, y)` are in one state, and either a
/// friendly piece stands on each or they lie all inside the interior or all
/// outside it.
pub open spec fn even_neighbours(g: Seq<Square>, x: int, y: int) -> bool {
    let state = square_at(g, x, y - 1);
    &&& square_at(g, x + 1, y) == state
    &&& square_at(g, x, y + 1) == state
    &&& square_at(g, x - 1, y) == state
    &&& state == Square::Friendly || {
        &&& interior(x + 1, y) == interior(x, y - 1)
        &&& interior(x, y + 1) == interior(x, y - 1)
        &&& interior(x - 1, y) == interior(x, y - 1)
    }
}

/// Where the four orthogonal neighbours of a cell are in one state, and none
/// of them is cut off by the border unless all are, a single step counts the
/// same in all four orthogonal directions.
pub proof fn law_single_steps_agree(g: Seq<Square>, x: int, y: int)
    requires
        even_neighbours(g, x, y),
    ensures
        step_count(g, x, y, Direction::North, 1) == step_count(g, x, y, Direction::East, 1),
        step_count(g, x, y, Direction::East, 1) == step_count(g, x, y, Direction::South, 1),
        step_count(g, x, y, Direction::South, 1) == step_count(g, x, y, Direction::West, 1),
{
    reveal_with_fuel(step_count, 2);
}

/// An unlimited slide stops at an opponent next to it: it counts the capture
/// and nothing behind it, as does every slide of at least one step.
pub proof fn law_capture_ends_slide(g: Seq<Square>, x: int, y: int, dir: Direction, n: int)
    requires
        interior(x + dir.spec_dx(), y + dir.spec_dy()),
        square_at(g, x + dir.spec_dx(), y + dir.spec_dy()) == Square::Opponent,
        n >= 1,
    ensures
        step_count(g, x, y, dir, n) == 1,
        range_count(g, x, y, dir) == 1,
{
}

/// Steps beyond the cells that lie ahead inside the board change nothing.
proof fn lemma_spare_steps(
    g: Seq<Square>,
    x: int,
    y: int,
    dir: Direction,
    n: int,
    m: int,
    jumps: int,
)
    requires
        interior(x + dir.spec_dx(), y + dir.spec_dy()) ==> n >= room(x, y, dir) && m >= room(
            x,
            y,
            dir,
        ),
    ensures
        step_count(g, x, y, dir, n) == step_count(g, x, y, dir, m),
        flying_jump_count(g, x, y, dir, n, jumps) == flying_jump_count(g, x, y, dir, m, jumps),
        hook_count(g, x, y, dir, n) == hook_count(g, x, y, dir, m),
    decreases n,
{
    let tx = x + dir.spec_dx();
    let ty = y + dir.spec_dy();
    if interior(tx, ty) {
        assert(room(x, y, dir) >= 1);
        assert(room(tx, ty, dir) == room(x, y, dir) - 1);
        lemma_spare_steps(g, tx, ty, dir, n - 1, m - 1, jumps);
        lemma_spare_steps(g, tx, ty, dir, n - 1, m - 1, jumps - 1);
    }
}

/// A slide that may take as many steps as a line has interior cells is as
/// good as one that may take any number more: it is stopped by the border or
/// by a piece, never by its limit. So the slides over the whole board are
/// slides without a limit.
pub proof fn law_enough_steps_are_unlimited(
    g: Seq<Square>,
    x: int,
    y: int,
    dir: Direction,
    n: int,
    jumps: int,
)
    requires
        n >= BOARD_WIDTH - 2,
    ensures
        step_count(g, x, y, dir, n) == range_count(g, x, y, dir),
        flying_jump_count(g, x, y, dir, n, jumps) == flying_jump_count(
            g,
            x,
            y,
            dir,
            WHOLE_BOARD as int,
            jumps,
        ),
        hook_count(g, x, y, dir, n) == hook_count(g, x, y, dir, WHOLE_BOARD as int),
{
    lemma_spare_steps(g, x, y, dir, n, WHOLE_BOARD as int, jumps);
}

} // verus!

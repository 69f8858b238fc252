//! The board scanner: every cell of a board probed with every movement
//! pattern, and the counts added up into one aggregate.
//!
//! The totals of a scan are counted in quarters. A pattern that is summed over
//! the four directions of an axis class enters as that sum, which over the
//! divisor four is the average of one direction. The two knight jumps enter
//! twice over, and the lion moves four times over, which over the divisor four
//! are their half and their whole.

use vstd::prelude::*;
use crate::compound::{
    dove_moves, dove_moves_count, flying_capture_axis, flying_capture_axis_count,
    flying_jump_axis, flying_jump_axis_count, full_lion, hook_axis, hook_axis_count,
    jump_axis_count, jump_n_axis, jump_then_range_axis, jump_then_range_axis_count,
    lemma_bent_axis_bounds, lemma_dove_moves_bounds, lemma_lion_bounds, lemma_slide_axis_bounds,
    lemma_step_jump_axis_bounds, limited_lion, limited_reach, lion_reach, range_axis,
    range_axis_count, step_axis_count, step_n_axis, with_credit,
};
use crate::direction::AxisClass;
use crate::grid::{Grid, Square, BOARD_CELLS, BOARD_WIDTH};
use crate::moves::{jump_knight, knight_count};
use crate::simulation::{
    entries, lemma_add_within, lemma_within_grows, Simulation, SimulationView,
    JUMP_SLOTS, STEP_SLOTS,
};

verus! {

/// The divisor of every scan: its totals are counted in quarters.
pub const SCAN_DIVISOR: u64 = 4;

/// Most that one cell can add to any total of a scan.
pub const CELL_MAX: u64 = 9384;

/// Most that any total of a scan of a whole board can be.
pub const BOARD_MAX: u64 = 12161664;

/// What the cell `(x, y)` adds to a scan.
pub open spec fn cell_view(g: Seq<Square>, x: int, y: int) -> SimulationView {
    SimulationView {
        orthogonal_steps: Seq::new(
            STEP_SLOTS as nat,
            |n: int| step_axis_count(g, x, y, AxisClass::Orthogonal, n),
        ),
        diagonal_steps: Seq::new(
            STEP_SLOTS as nat,
            |n: int| step_axis_count(g, x, y, AxisClass::Diagonal, n),
        ),
        orthogonal_jumps: Seq::new(
            JUMP_SLOTS as nat,
            |n: int| jump_axis_count(g, x, y, AxisClass::Orthogonal, n),
        ),
        diagonal_jumps: Seq::new(
            JUMP_SLOTS as nat,
            |n: int| jump_axis_count(g, x, y, AxisClass::Diagonal, n),
        ),
        dove: dove_moves_count(g, x, y),
        orthogonal_range: range_axis_count(g, x, y, AxisClass::Orthogonal),
        diagonal_range: range_axis_count(g, x, y, AxisClass::Diagonal),
        knight_jump: 2 * knight_count(g, x, y),
        orthogonal_flying_jump: flying_jump_axis_count(g, x, y, AxisClass::Orthogonal),
        diagonal_flying_jump: flying_jump_axis_count(g, x, y, AxisClass::Diagonal),
        orthogonal_flying_capture: flying_capture_axis_count(g, x, y, AxisClass::Orthogonal),
        diagonal_flying_capture: flying_capture_axis_count(g, x, y, AxisClass::Diagonal),
        orthogonal_jump_then_range: jump_then_range_axis_count(g, x, y, AxisClass::Orthogonal),
        diagonal_jump_then_range: jump_then_range_axis_count(g, x, y, AxisClass::Diagonal),
        orthogonal_hook: hook_axis_count(g, x, y, AxisClass::Orthogonal),
        diagonal_hook: hook_axis_count(g, x, y, AxisClass::Diagonal),
        full_lion: 4 * with_credit(lion_reach(g, x, y)),
        limited_lion: 4 * with_credit(limited_reach(g, x, y)),
        divisor: SCAN_DIVISOR as int,
    }
}

/// What the first `k` cells of the board, row by row, add up to.
pub open spec fn cells_view(g: Seq<Square>, k: int) -> SimulationView
    decreases k,
{
    if k <= 0 {
        SimulationView::zero()
    } else {
        cells_view(g, k - 1).add(
            cell_view(g, (k - 1) % (BOARD_WIDTH as int), (k - 1) / (BOARD_WIDTH as int)),
        )
    }
}

/// What all cells of the board add up to.
pub open spec fn board_view(g: Seq<Square>) -> SimulationView {
    cells_view(g, BOARD_CELLS as int)
}

/// No cell adds more than `CELL_MAX` to any total, and none adds less than
/// nothing.
pub proof fn lemma_cell_view_bounds(g: Seq<Square>, x: int, y: int)
    ensures
        cell_view(g, x, y).well_formed(),
        cell_view(g, x, y).within(CELL_MAX as int),
        cell_view(g, x, y).divisor == SCAN_DIVISOR,
{
    let cell = cell_view(g, x, y);
    assert forall|i: int| 0 <= i < cell.orthogonal_steps.len() implies 0
        <= #[trigger] cell.orthogonal_steps[i] <= CELL_MAX by {
        lemma_step_jump_axis_bounds(g, x, y, AxisClass::Orthogonal, i);
    }
    assert forall|i: int| 0 <= i < cell.diagonal_steps.len() implies 0
        <= #[trigger] cell.diagonal_steps[i] <= CELL_MAX by {
        lemma_step_jump_axis_bounds(g, x, y, AxisClass::Diagonal, i);
    }
    assert forall|i: int| 0 <= i < cell.orthogonal_jumps.len() implies 0
        <= #[trigger] cell.orthogonal_jumps[i] <= CELL_MAX by {
        lemma_step_jump_axis_bounds(g, x, y, AxisClass::Orthogonal, i);
    }
    assert forall|i: int| 0 <= i < cell.diagonal_jumps.len() implies 0
        <= #[trigger] cell.diagonal_jumps[i] <= CELL_MAX by {
        lemma_step_jump_axis_bounds(g, x, y, AxisClass::Diagonal, i);
    }
    lemma_slide_axis_bounds(g, x, y, AxisClass::Orthogonal);
    lemma_slide_axis_bounds(g, x, y, AxisClass::Diagonal);
    lemma_bent_axis_bounds(g, x, y, AxisClass::Orthogonal);
    lemma_bent_axis_bounds(g, x, y, AxisClass::Diagonal);
    lemma_dove_moves_bounds(g, x, y);
    lemma_lion_bounds(g, x, y);
}

/// The first `k` cells of a board add up to a well-formed aggregate in
/// quarters, no total of which exceeds `CELL_MAX` for each of the cells.
pub proof fn lemma_cells_view_bounds(g: Seq<Square>, k: int)
    requires
        0 <= k,
    ensures
        cells_view(g, k).well_formed(),
        cells_view(g, k).within(k * CELL_MAX),
        cells_view(g, k).divisor == if k > 0 { 4int } else { 1int },
    decreases k,
{
    if k > 0 {
        let x = (k - 1) % (BOARD_WIDTH as int);
        let y = (k - 1) / (BOARD_WIDTH as int);
        lemma_cells_view_bounds(g, k - 1);
        lemma_cell_view_bounds(g, x, y);
        lemma_add_within(cells_view(g, k - 1), (k - 1) * CELL_MAX, cell_view(g, x, y), CELL_MAX as int);
    }
}

/// The scan of any board is a well-formed aggregate in quarters, no total of
/// which exceeds `BOARD_MAX`.
pub proof fn lemma_board_view_bounds(g: Seq<Square>)
    ensures
        board_view(g).well_formed(),
        board_view(g).within(BOARD_MAX as int),
        board_view(g).divisor == SCAN_DIVISOR,
{
    lemma_cells_view_bounds(g, BOARD_CELLS as int);
}

/// The step totals of one cell for the distances below eight.
fn cell_steps(grid: &Grid, x: i64, y: i64, axis: AxisClass) -> (steps: [u64; 8])
    ensures
        entries(steps) == Seq::new(
            STEP_SLOTS as nat,
            |n: int| step_axis_count(grid@, x as int, y as int, axis, n),
        ),
        forall|n: int| 0 <= n < 8 ==> steps@[n] <= CELL_MAX,
{
    let mut steps: [u64; 8] = [0; 8];
    let mut n: usize = 0;
    while n < 8
        invariant
            0 <= n <= 8,
            forall|j: int|
                0 <= j < n ==> steps@[j] == step_axis_count(grid@, x as int, y as int, axis, j),
            forall|j: int| 0 <= j < n ==> steps@[j] <= CELL_MAX,
        decreases 8 - n,
    {
        steps[n] = step_n_axis(grid, x, y, axis, n as i64) as u64;
        n = n + 1;
    }
    assert(entries(steps) =~= Seq::new(
        STEP_SLOTS as nat,
        |n: int| step_axis_count(grid@, x as int, y as int, axis, n),
    ));
    steps
}

/// The jump totals of one cell for the distances below four.
fn cell_jumps(grid: &Grid, x: i64, y: i64, axis: AxisClass) -> (jumps: [u64; 4])
    ensures
        entries(jumps) == Seq::new(
            JUMP_SLOTS as nat,
            |n: int| jump_axis_count(grid@, x as int, y as int, axis, n),
        ),
        forall|n: int| 0 <= n < 4 ==> jumps@[n] <= CELL_MAX,
{
    let mut jumps: [u64; 4] = [0; 4];
    let mut n: usize = 0;
    while n < 4
        invariant
            0 <= n <= 4,
            forall|j: int|
                0 <= j < n ==> jumps@[j] == jump_axis_count(grid@, x as int, y as int, axis, j),
            forall|j: int| 0 <= j < n ==> jumps@[j] <= CELL_MAX,
        decreases 4 - n,
    {
        jumps[n] = jump_n_axis(grid, x, y, axis, n as i64) as u64;
        n = n + 1;
    }
    assert(entries(jumps) =~= Seq::new(
        JUMP_SLOTS as nat,
        |n: int| jump_axis_count(grid@, x as int, y as int, axis, n),
    ));
    jumps
}

/// Probes the cell `(x, y)` with every movement pattern.
pub fn scan_cell(grid: &Grid, x: i64, y: i64) -> (cell: Simulation)
    ensures
        cell@ == cell_view(grid@, x as int, y as int),
        cell@.within(CELL_MAX as int),
{
    Simulation {
        orthogonal_steps: cell_steps(grid, x, y, AxisClass::Orthogonal),
        diagonal_steps: cell_steps(grid, x, y, AxisClass::Diagonal),
        orthogonal_jumps: cell_jumps(grid, x, y, AxisClass::Orthogonal),
        diagonal_jumps: cell_jumps(grid, x, y, AxisClass::Diagonal),
        dove: dove_moves(grid, x, y) as u64,
        orthogonal_range: range_axis(grid, x, y, AxisClass::Orthogonal) as u64,
        diagonal_range: range_axis(grid, x, y, AxisClass::Diagonal) as u64,
        knight_jump: 2 * (jump_knight(grid, x, y) as u64),
        orthogonal_flying_jump: flying_jump_axis(grid, x, y, AxisClass::Orthogonal) as u64,
        diagonal_flying_jump: flying_jump_axis(grid, x, y, AxisClass::Diagonal) as u64,
        orthogonal_flying_capture: flying_capture_axis(grid, x, y, AxisClass::Orthogonal) as u64,
        diagonal_flying_capture: flying_capture_axis(grid, x, y, AxisClass::Diagonal) as u64,
        orthogonal_jump_then_range: jump_then_range_axis(grid, x, y, AxisClass::Orthogonal) as u64,
        diagonal_jump_then_range: jump_then_range_axis(grid, x, y, AxisClass::Diagonal) as u64,
        orthogonal_hook: hook_axis(grid, x, y, AxisClass::Orthogonal) as u64,
        diagonal_hook: hook_axis(grid, x, y, AxisClass::Diagonal) as u64,
        full_lion: 4 * (full_lion(grid, x, y) as u64),
        limited_lion: 4 * (limited_lion(grid, x, y) as u64),
        divisor: SCAN_DIVISOR,
    }
}

/// Probes every cell of the board once and adds up what the cells give.
pub fn scan(grid: &Grid) -> (board: Simulation)
    ensures
        board@ == board_view(grid@),
        board@.divisor == SCAN_DIVISOR,
        board@.within(BOARD_MAX as int),
{
    let mut board = Simulation::new();
    let mut k: usize = 0;
    while k < BOARD_CELLS
        invariant
            0 <= k <= BOARD_CELLS,
            board@ == cells_view(grid@, k as int),
            board@.divisor == if k > 0 { 4int } else { 1int },
            board@.within(k * CELL_MAX),
        decreases BOARD_CELLS - k,
    {
        let x = (k % BOARD_WIDTH) as i64;
        let y = (k / BOARD_WIDTH) as i64;
        let cell = scan_cell(grid, x, y);
        proof {
            lemma_add_within(board@, k * CELL_MAX, cell@, CELL_MAX as int);
            lemma_within_grows(board@.add(cell@), k * CELL_MAX + CELL_MAX, u64::MAX as int);
        }
        board = board.add(cell);
        k = k + 1;
    }
    board
}

} // verus!

//! The occupancy grid: a fixed square board with one of three states per cell.

use vstd::prelude::*;

verus! {

/// What stands on one cell of the board.
#[derive(Copy, Clone, PartialEq, Eq, Structural, PartialOrd, Ord, Debug, Hash)]
pub enum Square {
    Empty,
    Friendly,
    Opponent,
}

pub const BOARD_WIDTH: usize = 36;

pub const BOARD_HEIGHT: usize = 36;

/// Number of cells of the board.
pub const BOARD_CELLS: usize = 1296;

/// Position of the cell `(x, y)` in the row-major sequence of cells.
pub open spec fn cell_index(x: int, y: int) -> int {
    y * (BOARD_WIDTH as int) + x
}

/// `(x, y)` names a cell of the board.
pub open spec fn on_board(x: int, y: int) -> bool {
    0 <= x < BOARD_WIDTH && 0 <= y < BOARD_HEIGHT
}

/// A board of `BOARD_WIDTH` by `BOARD_HEIGHT` cells, stored row by row.
#[derive(Clone)]
pub struct Grid {
    squares: [Square; 1296],
}

impl View for Grid {
    type V = Seq<Square>;

    closed spec fn view(&self) -> Seq<Square> {
        self.squares@
    }
}

impl Grid {
    /// The state of the cell `(x, y)`.
    pub open spec fn at(&self, x: int, y: int) -> Square {
        self@[cell_index(x, y)]
    }

    /// Every view of a grid has one entry per cell.
    pub broadcast proof fn lemma_len(&self)
        ensures
            #[trigger] self@.len() == BOARD_CELLS,
    {
    }

    /// A board on which every cell is empty.
    pub fn new() -> (grid: Grid)
        ensures
            grid@ == Seq::new(BOARD_CELLS as nat, |i: int| Square::Empty),
    {
        let grid = Grid { squares: [Square::Empty; 1296] };
        assert(grid@ =~= Seq::new(BOARD_CELLS as nat, |i: int| Square::Empty));
        grid
    }

    /// Reads the cell `(x, y)`.
    pub fn get(&self, x: usize, y: usize) -> (square: Square)
        requires
            on_board(x as int, y as int),
        ensures
            square == self.at(x as int, y as int),
    {
        self.squares[y * BOARD_WIDTH + x]
    }

    /// Writes `square` to the cell `(x, y)` and leaves every other cell alone.
    pub fn set(&mut self, square: Square, x: usize, y: usize)
        requires
            on_board(x as int, y as int),
        ensures
            final(self)@ == old(self)@.update(cell_index(x as int, y as int), square),
    {
        self.squares[y * BOARD_WIDTH + x] = square;
    }
}

} // verus!

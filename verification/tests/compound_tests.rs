use shogi_piece_values::compound::{
    dove_moves, flying_capture_axis, flying_jump_axis, full_lion, hook_axis, jump_n_axis,
    jump_then_range_axis, limited_lion, range_axis, step_n_axis, FLYING_JUMPS,
};
use shogi_piece_values::direction::AxisClass;
use shogi_piece_values::grid::{Grid, Square};

fn block_of(state: Square, x: usize, y: usize) -> Grid {
    let mut grid = Grid::new();
    for i in x - 2..=x + 2 {
        for j in y - 2..=y + 2 {
            if (i, j) != (x, y) {
                grid.set(state, i, j);
            }
        }
    }
    grid
}

#[test]
fn axis_sums_on_an_empty_board() {
    let grid = Grid::new();
    assert_eq!(step_n_axis(&grid, 10, 10, AxisClass::Orthogonal, 1), 4);
    assert_eq!(step_n_axis(&grid, 10, 10, AxisClass::Diagonal, 1), 4);
    assert_eq!(step_n_axis(&grid, 10, 10, AxisClass::Orthogonal, 0), 0);
    assert_eq!(step_n_axis(&grid, 10, 10, AxisClass::Orthogonal, 7), 28);
    assert_eq!(step_n_axis(&grid, 3, 3, AxisClass::Orthogonal, 7), 2 + 7 + 7 + 2);
    assert_eq!(step_n_axis(&grid, 3, 3, AxisClass::Diagonal, 7), 2 + 7 + 2 + 2);
    assert_eq!(range_axis(&grid, 10, 10, AxisClass::Orthogonal), 9 + 24 + 24 + 9);
    assert_eq!(range_axis(&grid, 10, 10, AxisClass::Diagonal), 9 + 24 + 9 + 9);
    assert_eq!(jump_n_axis(&grid, 10, 10, AxisClass::Orthogonal, 3), 4);
    assert_eq!(jump_n_axis(&grid, 2, 2, AxisClass::Orthogonal, 2), 2);
    assert_eq!(jump_n_axis(&grid, 2, 2, AxisClass::Diagonal, 2), 1);
    assert_eq!(flying_jump_axis(&grid, 10, 10, AxisClass::Orthogonal), 66);
    assert_eq!(flying_capture_axis(&grid, 10, 10, AxisClass::Diagonal), 51);
    assert_eq!(jump_then_range_axis(&grid, 10, 10, AxisClass::Orthogonal), 66 + 8 + 23 + 23 + 8);
    assert_eq!(hook_axis(&grid, 10, 10, AxisClass::Orthogonal), 34 * 66);
    assert_eq!(dove_moves(&grid, 10, 10), 12);
    assert_eq!(dove_moves(&grid, 4, 4), 3);
}

#[test]
fn axis_sums_at_the_corner_of_the_interior() {
    let grid = Grid::new();
    assert_eq!(step_n_axis(&grid, 1, 1, AxisClass::Orthogonal, 1), 2);
    assert_eq!(step_n_axis(&grid, 1, 1, AxisClass::Diagonal, 1), 1);
    assert_eq!(step_n_axis(&grid, 0, 0, AxisClass::Orthogonal, 1), 0);
    assert_eq!(step_n_axis(&grid, 0, 0, AxisClass::Diagonal, 1), 1);
}

#[test]
fn axis_sums_see_every_direction() {
    let mut grid = Grid::new();
    grid.set(Square::Friendly, 10, 9);
    assert_eq!(step_n_axis(&grid, 10, 10, AxisClass::Orthogonal, 1), 3);
    grid.set(Square::Friendly, 11, 10);
    assert_eq!(step_n_axis(&grid, 10, 10, AxisClass::Orthogonal, 1), 2);
    grid.set(Square::Friendly, 10, 11);
    assert_eq!(step_n_axis(&grid, 10, 10, AxisClass::Orthogonal, 1), 1);
    grid.set(Square::Friendly, 9, 10);
    assert_eq!(step_n_axis(&grid, 10, 10, AxisClass::Orthogonal, 1), 0);
    assert_eq!(step_n_axis(&grid, 10, 10, AxisClass::Diagonal, 1), 4);
    grid.set(Square::Friendly, 11, 9);
    grid.set(Square::Friendly, 11, 11);
    grid.set(Square::Friendly, 9, 11);
    assert_eq!(jump_n_axis(&grid, 10, 10, AxisClass::Diagonal, 1), 1);
    grid.set(Square::Friendly, 9, 9);
    assert_eq!(jump_n_axis(&grid, 10, 10, AxisClass::Diagonal, 1), 0);
    assert_eq!(jump_n_axis(&grid, 10, 10, AxisClass::Orthogonal, 1), 0);
}

#[test]
fn flying_jump_axis_uses_three_leaps() {
    assert_eq!(FLYING_JUMPS, 3);
    let mut grid = Grid::new();
    for x in 11..=16 {
        grid.set(Square::Friendly, x, 10);
    }
    assert_eq!(flying_jump_axis(&grid, 10, 10, AxisClass::Orthogonal), 9 + 4 + 24 + 9);
}

#[test]
fn full_lion_with_three_empty_cells_is_four() {
    let mut grid = block_of(Square::Friendly, 10, 10);
    grid.set(Square::Empty, 8, 8);
    grid.set(Square::Empty, 12, 10);
    grid.set(Square::Empty, 10, 11);
    assert_eq!(full_lion(&grid, 10, 10), 4);
}

#[test]
fn full_lion_without_a_landing_is_nothing() {
    let grid = block_of(Square::Friendly, 10, 10);
    assert_eq!(full_lion(&grid, 10, 10), 0);
}

#[test]
fn full_lion_with_one_landing_is_two() {
    let mut grid = block_of(Square::Friendly, 10, 10);
    grid.set(Square::Opponent, 9, 12);
    assert_eq!(full_lion(&grid, 10, 10), 2);
}

#[test]
fn full_lion_counts_every_neighbour_on_its_own() {
    let grid = Grid::new();
    assert_eq!(full_lion(&grid, 10, 10), 25);
    let opponents = block_of(Square::Opponent, 10, 10);
    assert_eq!(full_lion(&opponents, 10, 10), 25);
    let mut first_is_friendly = Grid::new();
    first_is_friendly.set(Square::Friendly, 8, 8);
    assert_eq!(full_lion(&first_is_friendly, 10, 10), 24);
}

#[test]
fn full_lion_does_not_count_its_own_cell() {
    let mut grid = Grid::new();
    grid.set(Square::Friendly, 10, 10);
    assert_eq!(full_lion(&grid, 10, 10), 25);
}

#[test]
fn full_lion_near_the_border() {
    let grid = Grid::new();
    assert_eq!(full_lion(&grid, 0, 0), 4 + 1);
    assert_eq!(full_lion(&grid, 1, 1), 8 + 1);
    assert_eq!(full_lion(&grid, 2, 2), 15 + 1);
    assert_eq!(full_lion(&grid, 35, 20), 10 + 1);
    assert_eq!(full_lion(&grid, 34, 34), 8 + 1);
    assert_eq!(full_lion(&grid, -2, 5), 0);
    assert_eq!(full_lion(&grid, -1, 5), 5 + 1);
    assert_eq!(full_lion(&grid, i64::MAX, 5), 0);
}

#[test]
fn limited_lion_jumps_up_to_three_along_eight_directions() {
    let grid = Grid::new();
    assert_eq!(limited_lion(&grid, 10, 10), 25);
    assert_eq!(limited_lion(&grid, 0, 0), 3 + 1);
    assert_eq!(limited_lion(&grid, 1, 1), 9 + 1);
    let blocked = block_of(Square::Friendly, 10, 10);
    assert_eq!(limited_lion(&blocked, 10, 10), 8 + 1);
}

#[test]
fn limited_lion_without_a_landing_is_nothing() {
    let mut grid = Grid::new();
    for n in 1..=3usize {
        for (dx, dy) in [(0i64, -1i64), (1, -1), (1, 0), (1, 1), (0, 1), (-1, 1), (-1, 0), (-1, -1)] {
            let x = (10 + dx * n as i64) as usize;
            let y = (10 + dy * n as i64) as usize;
            grid.set(Square::Friendly, x, y);
        }
    }
    assert_eq!(limited_lion(&grid, 10, 10), 0);
    grid.set(Square::Opponent, 13, 10);
    assert_eq!(limited_lion(&grid, 10, 10), 2);
    assert_eq!(full_lion(&grid, 10, 10), 8 + 1);
}

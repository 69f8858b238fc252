use shogi_piece_values::direction::Direction;
use shogi_piece_values::grid::{Grid, Square};
use shogi_piece_values::moves::{
    count_pieces, dove, flying_capture, flying_jump, hook, jump_knight, jump_n, jump_then_range,
    range, step_n, try_add,
};

fn all_directions() -> [Direction; 8] {
    [
        Direction::North,
        Direction::NorthEast,
        Direction::East,
        Direction::SouthEast,
        Direction::South,
        Direction::SouthWest,
        Direction::West,
        Direction::NorthWest,
    ]
}

/// A row of pieces east of (10, 10): F at 12, O at 14, F at 15, O at 17, F at 18.
fn crowded_row() -> Grid {
    let mut grid = Grid::new();
    grid.set(Square::Friendly, 12, 10);
    grid.set(Square::Opponent, 14, 10);
    grid.set(Square::Friendly, 15, 10);
    grid.set(Square::Opponent, 17, 10);
    grid.set(Square::Friendly, 18, 10);
    grid
}

#[test]
fn try_add_keeps_to_the_interior() {
    assert_eq!(try_add(5, 1, 5, -1), Some((6, 4)));
    assert_eq!(try_add(1, 0, 1, 0), Some((1, 1)));
    assert_eq!(try_add(34, 0, 34, 0), Some((34, 34)));
    assert_eq!(try_add(1, -1, 5, 0), None);
    assert_eq!(try_add(5, 0, 1, -1), None);
    assert_eq!(try_add(34, 1, 5, 0), None);
    assert_eq!(try_add(5, 0, 34, 1), None);
    assert_eq!(try_add(-3, 1, 5, 0), None);
    assert_eq!(try_add(40, -1, 5, 0), None);
}

#[test]
fn try_add_survives_the_ends_of_the_number_line() {
    assert_eq!(try_add(i64::MAX, 1, 5, 0), None);
    assert_eq!(try_add(5, 0, i64::MIN, -1), None);
    assert_eq!(try_add(i64::MIN, i64::MIN, 5, 0), None);
    assert_eq!(try_add(i64::MAX, i64::MIN, 7, 0), None);
    assert_eq!(try_add(i64::MAX, i64::MIN + 6, 7, 0), Some((5, 7)));
}

#[test]
fn opponent_north_of_probe_ends_the_slide() {
    let mut grid = Grid::new();
    grid.set(Square::Opponent, 10, 9);
    assert_eq!(range(&grid, 10, 10, Direction::North), 1);
    for n in 1..8 {
        assert_eq!(step_n(&grid, 10, 10, Direction::North, n), 1);
    }
    assert_eq!(step_n(&grid, 10, 10, Direction::North, 0), 0);
}

#[test]
fn steps_on_an_empty_board_are_limited_by_n_and_the_border() {
    let grid = Grid::new();
    assert_eq!(step_n(&grid, 10, 10, Direction::North, 0), 0);
    assert_eq!(step_n(&grid, 10, 10, Direction::North, -4), 0);
    assert_eq!(step_n(&grid, 10, 10, Direction::North, 3), 3);
    assert_eq!(step_n(&grid, 10, 10, Direction::North, 9), 9);
    assert_eq!(step_n(&grid, 10, 10, Direction::North, 10), 9);
    assert_eq!(step_n(&grid, 10, 10, Direction::North, 36), 9);
    assert_eq!(step_n(&grid, 10, 10, Direction::North, i64::MAX), 9);
}

#[test]
fn range_on_an_empty_board_reaches_the_last_interior_cell() {
    let grid = Grid::new();
    assert_eq!(range(&grid, 10, 10, Direction::North), 9);
    assert_eq!(range(&grid, 10, 10, Direction::South), 24);
    assert_eq!(range(&grid, 10, 10, Direction::East), 24);
    assert_eq!(range(&grid, 10, 10, Direction::West), 9);
    assert_eq!(range(&grid, 10, 10, Direction::NorthEast), 9);
    assert_eq!(range(&grid, 10, 10, Direction::SouthEast), 24);
    assert_eq!(range(&grid, 10, 10, Direction::SouthWest), 9);
    assert_eq!(range(&grid, 10, 10, Direction::NorthWest), 9);
    assert_eq!(range(&grid, 30, 5, Direction::SouthEast), 4);
    assert_eq!(range(&grid, 30, 5, Direction::NorthEast), 4);
    assert_eq!(range(&grid, 30, 5, Direction::SouthWest), 29);
}

#[test]
fn friendly_piece_blocks_without_credit() {
    let mut grid = Grid::new();
    grid.set(Square::Friendly, 10, 8);
    assert_eq!(step_n(&grid, 10, 10, Direction::North, 5), 1);
    assert_eq!(range(&grid, 10, 10, Direction::North), 1);
    grid.set(Square::Friendly, 10, 9);
    assert_eq!(step_n(&grid, 10, 10, Direction::North, 5), 0);
    assert_eq!(range(&grid, 10, 10, Direction::North), 0);
}

#[test]
fn opponent_is_captured_and_ends_the_slide() {
    let mut grid = Grid::new();
    grid.set(Square::Opponent, 13, 13);
    assert_eq!(step_n(&grid, 10, 10, Direction::SouthEast, 2), 2);
    assert_eq!(step_n(&grid, 10, 10, Direction::SouthEast, 3), 3);
    assert_eq!(step_n(&grid, 10, 10, Direction::SouthEast, 7), 3);
    assert_eq!(range(&grid, 10, 10, Direction::SouthEast), 3);
}

#[test]
fn ring_cell_slides_nowhere_unless_inwards() {
    let mut grid = Grid::new();
    grid.set(Square::Opponent, 0, 4);
    grid.set(Square::Opponent, 20, 20);
    for d in [
        Direction::North,
        Direction::South,
        Direction::West,
        Direction::NorthWest,
        Direction::SouthWest,
    ] {
        assert_eq!(step_n(&grid, 0, 5, d, 7), 0);
        assert_eq!(range(&grid, 0, 5, d), 0);
        assert_eq!(flying_jump(&grid, 0, 5, d, 36, 3), 0);
        assert_eq!(flying_capture(&grid, 0, 5, d), 0);
        assert_eq!(count_pieces(&grid, 0, 5, d), 0);
        assert_eq!(hook(&grid, 0, 5, d, 36), 0);
        assert_eq!(jump_n(&grid, 0, 5, d, 1), 0);
        assert_eq!(jump_n(&grid, 0, 5, d, 3), 0);
    }
    assert_eq!(step_n(&grid, 0, 5, Direction::East, 7), 7);
    assert_eq!(range(&grid, 0, 5, Direction::East), 34);
    assert_eq!(jump_n(&grid, 0, 5, Direction::East, 1), 1);
}

#[test]
fn corner_cell_slides_along_its_diagonal_only() {
    let grid = Grid::new();
    for d in all_directions() {
        let expected = if d == Direction::NorthWest { 34 } else { 0 };
        assert_eq!(range(&grid, 35, 35, d), expected);
    }
    for d in all_directions() {
        let expected = if d == Direction::SouthEast { 34 } else { 0 };
        assert_eq!(range(&grid, 0, 0, d), expected);
    }
}

#[test]
fn no_slide_lands_on_the_ring() {
    let mut grid = Grid::new();
    grid.set(Square::Opponent, 35, 10);
    grid.set(Square::Opponent, 10, 0);
    assert_eq!(range(&grid, 33, 10, Direction::East), 1);
    assert_eq!(range(&grid, 34, 10, Direction::East), 0);
    assert_eq!(range(&grid, 10, 2, Direction::North), 1);
    assert_eq!(range(&grid, 10, 1, Direction::North), 0);
    assert_eq!(jump_n(&grid, 33, 10, Direction::East, 2), 0);
    assert_eq!(jump_n(&grid, 10, 3, Direction::North, 3), 0);
}

#[test]
fn single_steps_agree_when_neighbours_agree() {
    for state in [Square::Empty, Square::Friendly, Square::Opponent] {
        let mut grid = Grid::new();
        grid.set(state, 20, 19);
        grid.set(state, 21, 20);
        grid.set(state, 20, 21);
        grid.set(state, 19, 20);
        let expected = if state == Square::Friendly { 0 } else { 1 };
        for d in [Direction::North, Direction::East, Direction::South, Direction::West] {
            assert_eq!(step_n(&grid, 20, 20, d, 1), expected);
        }
    }
}

#[test]
fn single_steps_differ_next_to_the_border() {
    let grid = Grid::new();
    assert_eq!(step_n(&grid, 1, 5, Direction::West, 1), 0);
    assert_eq!(step_n(&grid, 1, 5, Direction::East, 1), 1);
}

#[test]
fn jump_looks_at_the_landing_cell_only() {
    let mut grid = Grid::new();
    grid.set(Square::Friendly, 10, 9);
    grid.set(Square::Opponent, 10, 8);
    grid.set(Square::Friendly, 10, 7);
    assert_eq!(jump_n(&grid, 10, 10, Direction::North, 1), 0);
    assert_eq!(jump_n(&grid, 10, 10, Direction::North, 2), 1);
    assert_eq!(jump_n(&grid, 10, 10, Direction::North, 3), 0);
    assert_eq!(jump_n(&grid, 10, 10, Direction::North, 4), 1);
    assert_eq!(jump_n(&grid, 10, 10, Direction::North, 9), 1);
    assert_eq!(jump_n(&grid, 10, 10, Direction::North, 10), 0);
    assert_eq!(jump_n(&grid, 10, 10, Direction::North, 11), 0);
}

#[test]
fn jump_of_no_steps_lands_on_the_origin() {
    let mut grid = Grid::new();
    grid.set(Square::Friendly, 6, 6);
    grid.set(Square::Opponent, 7, 7);
    for d in all_directions() {
        assert_eq!(jump_n(&grid, 5, 5, d, 0), 1);
        assert_eq!(jump_n(&grid, 6, 6, d, 0), 0);
        assert_eq!(jump_n(&grid, 7, 7, d, 0), 1);
        assert_eq!(jump_n(&grid, 0, 5, d, 0), 0);
    }
}

#[test]
fn jump_goes_the_way_of_its_direction() {
    let mut grid = Grid::new();
    grid.set(Square::Friendly, 13, 7);
    for d in all_directions() {
        let expected = if d == Direction::NorthEast { 0 } else { 1 };
        assert_eq!(jump_n(&grid, 10, 10, d, 3), expected);
    }
    assert_eq!(jump_n(&grid, 16, 4, Direction::NorthEast, -3), 0);
    assert_eq!(jump_n(&grid, 16, 4, Direction::SouthWest, 3), 0);
}

#[test]
fn jump_survives_the_ends_of_the_number_line() {
    let grid = Grid::new();
    assert_eq!(jump_n(&grid, 10, 10, Direction::North, i64::MAX), 0);
    assert_eq!(jump_n(&grid, 10, 10, Direction::NorthWest, i64::MIN), 0);
    assert_eq!(jump_n(&grid, i64::MIN, 10, Direction::East, i64::MAX), 0);
    assert_eq!(jump_n(&grid, i64::MIN + 5, 10, Direction::West, i64::MIN), 1);
}

#[test]
fn knight_jumps_two_up_and_one_aside() {
    let mut grid = Grid::new();
    assert_eq!(jump_knight(&grid, 10, 10), 2);
    grid.set(Square::Friendly, 11, 8);
    assert_eq!(jump_knight(&grid, 10, 10), 1);
    grid.set(Square::Opponent, 9, 8);
    assert_eq!(jump_knight(&grid, 10, 10), 1);
    grid.set(Square::Friendly, 9, 8);
    assert_eq!(jump_knight(&grid, 10, 10), 0);
    grid.set(Square::Friendly, 11, 12);
    assert_eq!(jump_knight(&grid, 10, 14), 1);
}

#[test]
fn knight_needs_room_to_the_north() {
    let grid = Grid::new();
    assert_eq!(jump_knight(&grid, 10, 3), 2);
    assert_eq!(jump_knight(&grid, 10, 2), 0);
    assert_eq!(jump_knight(&grid, 10, 0), 0);
    assert_eq!(jump_knight(&grid, 1, 10), 1);
    assert_eq!(jump_knight(&grid, 0, 10), 1);
    assert_eq!(jump_knight(&grid, 35, 10), 1);
    assert_eq!(jump_knight(&grid, 34, 10), 1);
}

#[test]
fn flying_jump_leaps_over_three_pieces() {
    let grid = crowded_row();
    assert_eq!(flying_jump(&grid, 10, 10, Direction::East, 36, 3), 7);
    assert_eq!(flying_jump(&grid, 10, 10, Direction::East, 36, 2), 5);
    assert_eq!(flying_jump(&grid, 10, 10, Direction::East, 36, 1), 4);
    assert_eq!(flying_jump(&grid, 10, 10, Direction::East, 36, 0), 2);
    assert_eq!(flying_jump(&grid, 10, 10, Direction::East, 36, -1), 2);
    assert_eq!(flying_jump(&grid, 10, 10, Direction::East, 36, 4), 8);
    assert_eq!(flying_jump(&grid, 10, 10, Direction::East, 36, 5), 24);
}

#[test]
fn flying_jump_is_limited_by_its_steps() {
    let grid = crowded_row();
    assert_eq!(flying_jump(&grid, 10, 10, Direction::East, 0, 3), 0);
    assert_eq!(flying_jump(&grid, 10, 10, Direction::East, 1, 3), 1);
    assert_eq!(flying_jump(&grid, 10, 10, Direction::East, 2, 3), 2);
    assert_eq!(flying_jump(&grid, 10, 10, Direction::East, 5, 3), 5);
    assert_eq!(flying_jump(&grid, 10, 10, Direction::East, 7, 3), 7);
    assert_eq!(flying_jump(&grid, 10, 10, Direction::East, 8, 3), 7);
}

#[test]
fn flying_jump_on_an_empty_board_is_a_range() {
    let grid = Grid::new();
    for d in all_directions() {
        assert_eq!(flying_jump(&grid, 12, 20, d, 36, 3), range(&grid, 12, 20, d));
    }
    assert_eq!(flying_jump(&grid, 12, 20, Direction::West, 36, 3), 11);
}

#[test]
fn flying_jump_counts_the_piece_that_stops_it() {
    let mut grid = Grid::new();
    grid.set(Square::Friendly, 10, 9);
    assert_eq!(flying_jump(&grid, 10, 10, Direction::North, 36, 0), 1);
    grid.set(Square::Opponent, 10, 9);
    assert_eq!(flying_jump(&grid, 10, 10, Direction::North, 36, 0), 1);
}

#[test]
fn flying_capture_counts_every_piece_behind_the_first() {
    let grid = crowded_row();
    assert_eq!(flying_capture(&grid, 10, 10, Direction::East), 6);
    assert_eq!(flying_capture(&grid, 12, 10, Direction::East), 5);
    assert_eq!(flying_capture(&grid, 20, 10, Direction::West), 6);
    assert_eq!(flying_capture(&grid, 18, 10, Direction::East), 16);
    assert_eq!(flying_capture(&grid, 10, 10, Direction::West), 9);
}

#[test]
fn count_pieces_counts_occupied_cells_along_the_ray() {
    let grid = crowded_row();
    assert_eq!(count_pieces(&grid, 10, 10, Direction::East), 5);
    assert_eq!(count_pieces(&grid, 14, 10, Direction::East), 3);
    assert_eq!(count_pieces(&grid, 14, 10, Direction::West), 1);
    assert_eq!(count_pieces(&grid, 10, 10, Direction::North), 0);
    assert_eq!(count_pieces(&grid, 30, 10, Direction::West), 5);
}

#[test]
fn count_pieces_leaves_out_the_ring() {
    let mut grid = Grid::new();
    grid.set(Square::Friendly, 35, 10);
    grid.set(Square::Friendly, 34, 10);
    assert_eq!(count_pieces(&grid, 10, 10, Direction::East), 1);
    assert_eq!(flying_capture(&grid, 10, 10, Direction::East), 24);
}

#[test]
fn hook_fans_out_from_every_empty_cell() {
    let grid = Grid::new();
    assert_eq!(hook(&grid, 10, 10, Direction::North, 36), 306);
    assert_eq!(hook(&grid, 10, 10, Direction::North, 2), 68);
    assert_eq!(hook(&grid, 10, 10, Direction::North, 1), 34);
    assert_eq!(hook(&grid, 10, 10, Direction::North, 0), 0);
    assert_eq!(hook(&grid, 10, 10, Direction::NorthEast, 36), 216);
}

#[test]
fn hook_turns_to_both_sides_of_its_direction() {
    let mut grid = Grid::new();
    grid.set(Square::Friendly, 11, 9);
    assert_eq!(hook(&grid, 10, 10, Direction::North, 1), 1 + 0 + 9);
    grid.set(Square::Friendly, 9, 9);
    assert_eq!(hook(&grid, 10, 10, Direction::North, 1), 1);
    let mut other = Grid::new();
    other.set(Square::Opponent, 13, 12);
    assert_eq!(hook(&other, 10, 10, Direction::East, 1), 1 + 9 + 24);
    assert_eq!(hook(&other, 10, 10, Direction::East, 3), (1 + 33) + (1 + 33) + (1 + 9 + 2));
}

#[test]
fn hook_stops_as_a_slide_does() {
    let mut grid = Grid::new();
    grid.set(Square::Opponent, 10, 9);
    assert_eq!(hook(&grid, 10, 10, Direction::North, 36), 1);
    grid.set(Square::Friendly, 10, 9);
    assert_eq!(hook(&grid, 10, 10, Direction::North, 36), 0);
    assert_eq!(hook(&grid, 10, 1, Direction::North, 36), 0);
}

#[test]
fn jump_then_range_adds_two_slides() {
    let mut grid = Grid::new();
    assert_eq!(jump_then_range(&grid, 10, 10, Direction::North), 9 + 8);
    assert_eq!(jump_then_range(&grid, 10, 10, Direction::SouthEast), 24 + 23);
    grid.set(Square::Opponent, 10, 9);
    assert_eq!(jump_then_range(&grid, 10, 10, Direction::North), 1 + 8);
    grid.set(Square::Friendly, 10, 9);
    assert_eq!(jump_then_range(&grid, 10, 10, Direction::North), 0 + 8);
    grid.set(Square::Friendly, 10, 8);
    assert_eq!(jump_then_range(&grid, 10, 10, Direction::North), 0);
}

#[test]
fn jump_then_range_at_the_border() {
    let grid = Grid::new();
    assert_eq!(jump_then_range(&grid, 10, 1, Direction::North), 0);
    assert_eq!(jump_then_range(&grid, 10, 2, Direction::North), 1);
    assert_eq!(jump_then_range(&grid, 0, 10, Direction::West), 0);
    assert_eq!(jump_then_range(&grid, i64::MAX, 10, Direction::East), 0);
}

#[test]
fn dove_slides_three_after_a_leap_of_three() {
    let mut grid = Grid::new();
    assert_eq!(dove(&grid, 10, 10, Direction::NorthEast), 3);
    assert_eq!(dove(&grid, 10, 10, Direction::NorthWest), 3);
    grid.set(Square::Friendly, 11, 9);
    grid.set(Square::Friendly, 13, 7);
    assert_eq!(dove(&grid, 10, 10, Direction::NorthEast), 3);
    grid.set(Square::Opponent, 15, 5);
    assert_eq!(dove(&grid, 10, 10, Direction::NorthEast), 2);
    grid.set(Square::Friendly, 14, 6);
    assert_eq!(dove(&grid, 10, 10, Direction::NorthEast), 0);
    grid.set(Square::Friendly, 5, 5);
    assert_eq!(dove(&grid, 10, 10, Direction::NorthWest), 1);
}

#[test]
fn dove_near_the_border() {
    let grid = Grid::new();
    assert_eq!(dove(&grid, 4, 4, Direction::NorthWest), 0);
    assert_eq!(dove(&grid, 5, 5, Direction::NorthWest), 1);
    assert_eq!(dove(&grid, 6, 6, Direction::NorthWest), 2);
    assert_eq!(dove(&grid, 7, 7, Direction::NorthWest), 3);
    assert_eq!(dove(&grid, 4, 4, Direction::SouthEast), 3);
    assert_eq!(dove(&grid, 29, 29, Direction::SouthEast), 2);
    assert_eq!(dove(&grid, i64::MAX - 1, 4, Direction::SouthEast), 0);
}

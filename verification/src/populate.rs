//! Filling a board with pieces at random, no two on one cell.

use vstd::prelude::*;
use rand::rngs::StdRng;
use crate::grid::{cell_index, on_board, Grid, Square, BOARD_CELLS, BOARD_HEIGHT, BOARD_WIDTH};
use crate::random::gen_range;

verus! {

/// How often a cell is drawn for one piece before the placement gives up.
pub const PLACEMENT_TRIES: usize = 100000;

/// Fewest pieces on a board, both sides together.
pub const MIN_PIECES: usize = 3;

/// The number of pieces on a board is drawn below this.
pub const PIECES_END: usize = 804;

/// Most pieces that either side may have.
pub const SIDE_MAX: usize = 402;

/// Number of cells of `g` in the state `square`.
pub open spec fn count_of(g: Seq<Square>, square: Square) -> nat {
    g.to_multiset().count(square)
}

/// `after` is `before` with `square` put on one cell that was empty.
pub open spec fn placed_one(before: Seq<Square>, after: Seq<Square>, square: Square) -> bool {
    exists|x: int, y: int|
        on_board(x, y) && #[trigger] before[cell_index(x, y)] == Square::Empty && after
            == before.update(cell_index(x, y), square)
}

/// No piece stands on the board `g`.
pub open spec fn is_bare(g: Seq<Square>) -> bool {
    forall|i: int| 0 <= i < g.len() ==> #[trigger] g[i] == Square::Empty
}

/// A piece stands on every cell of the board `g`.
pub open spec fn is_full(g: Seq<Square>) -> bool {
    forall|i: int| 0 <= i < g.len() ==> #[trigger] g[i] != Square::Empty
}

/// What comes of one cell drawn for a piece.
#[derive(Copy, Clone, PartialEq, Eq, Structural, Debug)]
pub enum Placement {
    /// The cell was empty and now holds the piece.
    Placed,
    /// The cell was occupied, and another is to be drawn.
    DrawAgain,
    /// The cell was occupied, and so were too many before it.
    GaveUp,
}

/// What comes of drawing the cell `(x, y)` of the board `g` for a piece, after
/// `tries` cells that were drawn for it and found occupied: an empty cell
/// takes the piece; an occupied one is followed by another draw, unless it is
/// the last of `PLACEMENT_TRIES` occupied cells, which ends the placement.
pub open spec fn placement_for(g: Seq<Square>, x: int, y: int, tries: int) -> Placement {
    if g[cell_index(x, y)] == Square::Empty {
        Placement::Placed
    } else if tries + 1 < PLACEMENT_TRIES {
        Placement::DrawAgain
    } else {
        Placement::GaveUp
    }
}

/// Every cell that is occupied in `before` is in the same state in `after`.
pub open spec fn keeps_pieces(before: Seq<Square>, after: Seq<Square>) -> bool {
    forall|i: int|
        0 <= i < before.len() && before[i] != Square::Empty ==> #[trigger] after[i] == before[i]
}

/// The number of opponents on a board for which `total` pieces were drawn, of
/// them `friendly` friendly ones: the rest, but no more than a side may have.
pub open spec fn opponents_for(total: int, friendly: int) -> int {
    if total - friendly < SIDE_MAX {
        total - friendly
    } else {
        SIDE_MAX as int
    }
}

/// The end of the range from which the number of friendly pieces is drawn, on
/// a board for which `total` pieces were drawn: one piece at least is left to
/// the opponent, and a side has no more than it may.
pub open spec fn friendly_end_for(total: int) -> int {
    if total - 1 < SIDE_MAX {
        total - 1
    } else {
        SIDE_MAX as int
    }
}

/// Putting a piece on an empty cell raises the count of its state by one,
/// lowers that of the empty cells by one and leaves the third as it was.
pub proof fn lemma_placed_one_counts(before: Seq<Square>, after: Seq<Square>, square: Square)
    requires
        placed_one(before, after, square),
        before.len() == BOARD_CELLS,
        square != Square::Empty,
    ensures
        after.len() == before.len(),
        keeps_pieces(before, after),
        count_of(after, square) == count_of(before, square) + 1,
        count_of(after, Square::Empty) == count_of(before, Square::Empty) - 1,
        forall|other: Square|
            other != square && other != Square::Empty ==> count_of(after, other) == count_of(
                before,
                other,
            ),
{
    broadcast use {
        vstd::seq_lib::to_multiset_update,
        vstd::multiset::group_multiset_axioms,
        vstd::seq_lib::to_multiset_contains,
    };

    let (x, y) = choose|x: int, y: int|
        on_board(x, y) && #[trigger] before[cell_index(x, y)] == Square::Empty && after
            == before.update(cell_index(x, y), square);
    let i = cell_index(x, y);
    assert(0 <= i < before.len());
    assert(after.to_multiset() == before.to_multiset().insert(square).remove(Square::Empty));
    assert(before.contains(Square::Empty));
    assert(before.to_multiset().count(Square::Empty) > 0);
}

/// What keeps its pieces over one change and over the next keeps them over
/// both.
pub proof fn lemma_keeps_pieces_chains(a: Seq<Square>, b: Seq<Square>, c: Seq<Square>)
    requires
        keeps_pieces(a, b),
        keeps_pieces(b, c),
        a.len() == b.len(),
    ensures
        keeps_pieces(a, c),
{
    assert forall|i: int| 0 <= i < a.len() && a[i] != Square::Empty implies #[trigger] c[i]
        == a[i] by {
        assert(b[i] == a[i]);
    }
}

/// The pairs of counts that can be drawn for a board are exactly those with
/// at least one friendly piece, at least two opponents, and of neither more
/// than a side may have.
pub proof fn law_counts_that_can_be_drawn(friendly: int, opponents: int)
    ensures
        (exists|total: int|
            MIN_PIECES <= total < PIECES_END && 1 <= friendly < #[trigger] friendly_end_for(total)
                && opponents == opponents_for(total, friendly)) <==> 1 <= friendly < SIDE_MAX && 2
            <= opponents <= SIDE_MAX,
{
    if 1 <= friendly < SIDE_MAX && 2 <= opponents <= SIDE_MAX {
        let total = friendly + opponents;
        assert(MIN_PIECES <= total < PIECES_END && 1 <= friendly < friendly_end_for(total)
            && opponents == opponents_for(total, friendly));
    }
}

/// The end of the range from which the number of friendly pieces is drawn,
/// from the number of pieces drawn for the board.
pub fn friendly_end(total: usize) -> (end: usize)
    requires
        total >= 1,
    ensures
        end == friendly_end_for(total as int),
{
    if total - 1 < SIDE_MAX {
        total - 1
    } else {
        SIDE_MAX
    }
}

/// The number of opponents on a board, from the two numbers drawn for it.
pub fn opponent_count(total: usize, friendly: usize) -> (opponents: usize)
    requires
        friendly <= total,
    ensures
        opponents == opponents_for(total as int, friendly as int),
{
    if total - friendly < SIDE_MAX {
        total - friendly
    } else {
        SIDE_MAX
    }
}

/// Draws how many friendly pieces and how many opponents a board gets: first
/// the number of all pieces, then below it the number of friendly ones, and
/// the opponents are the rest as far as a side may have them. At least one
/// piece is friendly, at least two are opponents, and neither side has more
/// than it may.
pub fn draw_counts(rng: &mut StdRng) -> (counts: (usize, usize))
    ensures
        1 <= counts.0 < SIDE_MAX,
        2 <= counts.1 <= SIDE_MAX,
{
    let total = gen_range(rng, MIN_PIECES, PIECES_END);
    let friendly = gen_range(rng, 1, friendly_end(total));
    let opponents = opponent_count(total, friendly);
    (friendly, opponents)
}

impl Grid {
    /// Puts `square` on the cell `(x, y)` if the cell is empty, and says
    /// whether it was.
    pub fn place_if_empty(&mut self, square: Square, x: usize, y: usize) -> (placed: bool)
        requires
            on_board(x as int, y as int),
        ensures
            placed == (old(self).at(x as int, y as int) == Square::Empty),
            placed ==> final(self)@ == old(self)@.update(
                cell_index(x as int, y as int),
                square,
            ),
            !placed ==> final(self)@ == old(self)@,
    {
        match self.get(x, y) {
            Square::Empty => {
                self.set(square, x, y);
                true
            },
            _ => false,
        }
    }

    /// Takes the cell `(x, y)` that was drawn for a piece after `tries`
    /// occupied ones: puts `square` there if the cell is empty, and else says
    /// whether another cell is to be drawn or the placement is at its end.
    pub fn place_or_retry(&mut self, square: Square, x: usize, y: usize, tries: usize) -> (outcome:
        Placement)
        requires
            on_board(x as int, y as int),
        ensures
            outcome == placement_for(old(self)@, x as int, y as int, tries as int),
            outcome == Placement::Placed ==> final(self)@ == old(self)@.update(
                cell_index(x as int, y as int),
                square,
            ),
            outcome != Placement::Placed ==> final(self)@ == old(self)@,
    {
        if self.place_if_empty(square, x, y) {
            Placement::Placed
        } else if tries < PLACEMENT_TRIES - 1 {
            Placement::DrawAgain
        } else {
            Placement::GaveUp
        }
    }

    /// Draws cells until an empty one comes up and puts `square` there. Gives
    /// up, with the board unchanged, after `PLACEMENT_TRIES` occupied cells.
    /// Which cell is drawn is left to the random source, and with it whether
    /// an empty one comes up in time; only on a board without a piece the
    /// first cell drawn is bound to be empty, and on a board without an empty
    /// cell none can be. What comes of each cell drawn is `place_or_retry`'s
    /// to say.
    pub fn randomly_place(&mut self, rng: &mut StdRng, square: Square) -> (placed: bool)
        ensures
            placed ==> placed_one(old(self)@, final(self)@, square),
            !placed ==> final(self)@ == old(self)@,
            is_bare(old(self)@) ==> placed,
            is_full(old(self)@) ==> !placed,
    {
        proof {
            self.lemma_len();
        }
        let mut tries: usize = 0;
        loop
            invariant
                self@ == old(self)@,
                self@.len() == BOARD_CELLS,
                tries < PLACEMENT_TRIES,
            decreases PLACEMENT_TRIES - tries,
        {
            let x = gen_range(rng, 0, BOARD_WIDTH);
            let y = gen_range(rng, 0, BOARD_HEIGHT);
            assert(0 <= cell_index(x as int, y as int) < BOARD_CELLS);
            match self.place_or_retry(square, x, y, tries) {
                Placement::Placed => {
                    assert(old(self)@[cell_index(x as int, y as int)] == Square::Empty);
                    return true;
                },
                Placement::DrawAgain => {
                    tries = tries + 1;
                },
                Placement::GaveUp => {
                    assert(old(self)@[cell_index(x as int, y as int)] != Square::Empty);
                    return false;
                },
            }
        }
    }

    /// Puts `friendly` friendly pieces and then `opponents` opponents on
    /// empty cells drawn at random, and says whether all of them found one.
    /// Whatever stood on the board stays where it was.
    pub fn populate(&mut self, rng: &mut StdRng, friendly: usize, opponents: usize) -> (done: bool)
        ensures
            keeps_pieces(old(self)@, final(self)@),
            done ==> count_of(final(self)@, Square::Friendly) == count_of(
                old(self)@,
                Square::Friendly,
            ) + friendly,
            done ==> count_of(final(self)@, Square::Opponent) == count_of(
                old(self)@,
                Square::Opponent,
            ) + opponents,
            done ==> count_of(final(self)@, Square::Empty) == count_of(old(self)@, Square::Empty)
                - friendly - opponents,
            friendly == 0 && opponents == 0 ==> done && final(self)@ == old(self)@,
    {
        proof {
            self.lemma_len();
        }
        let mut i: usize = 0;
        while i < friendly
            invariant
                0 <= i <= friendly,
                i == 0 ==> self@ == old(self)@,
                keeps_pieces(old(self)@, self@),
                count_of(self@, Square::Friendly) == count_of(old(self)@, Square::Friendly) + i,
                count_of(self@, Square::Opponent) == count_of(old(self)@, Square::Opponent),
                count_of(self@, Square::Empty) == count_of(old(self)@, Square::Empty) - i,
            decreases friendly - i,
        {
            let ghost before = self@;
            proof {
                self.lemma_len();
            }
            if !self.randomly_place(rng, Square::Friendly) {
                return false;
            }
            proof {
                lemma_placed_one_counts(before, self@, Square::Friendly);
                old(self).lemma_len();
                lemma_keeps_pieces_chains(old(self)@, before, self@);
            }
            i = i + 1;
        }
        let mut j: usize = 0;
        while j < opponents
            invariant
                0 <= j <= opponents,
                friendly == 0 && j == 0 ==> self@ == old(self)@,
                keeps_pieces(old(self)@, self@),
                count_of(self@, Square::Friendly) == count_of(old(self)@, Square::Friendly)
                    + friendly,
                count_of(self@, Square::Opponent) == count_of(old(self)@, Square::Opponent) + j,
                count_of(self@, Square::Empty) == count_of(old(self)@, Square::Empty) - friendly
                    - j,
            decreases opponents - j,
        {
            let ghost before = self@;
            proof {
                self.lemma_len();
            }
            if !self.randomly_place(rng, Square::Opponent) {
                return false;
            }
            proof {
                lemma_placed_one_counts(before, self@, Square::Opponent);
                old(self).lemma_len();
                lemma_keeps_pieces_chains(old(self)@, before, self@);
            }
            j = j + 1;
        }
        true
    }
}

} // verus!

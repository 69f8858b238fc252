//! From an aggregate to piece values: what one elementary move is worth, and
//! what a piece made of several moves is worth in half-points.

use vstd::prelude::*;
use crate::direction::AxisClass;
use crate::simulation::{Simulation, SimulationView, JUMP_SLOTS, STEP_SLOTS};

verus! {

/// An elementary move of a piece: a movement pattern, with the axis class that
/// it runs along and the distance that it covers where the pattern has them.
#[derive(Copy, Clone, PartialEq, Eq, Debug)]
pub enum Move {
    /// A slide of up to so many steps.
    Step(AxisClass, usize),
    /// A jump of exactly so many steps.
    Jump(AxisClass, usize),
    /// A slide without a limit.
    Range(AxisClass),
    /// The knight-style jump, both of its landings together.
    Knight,
    /// A slide that leaps over pieces.
    FlyingJump(AxisClass),
    /// A slide that captures past the first piece.
    FlyingCapture(AxisClass),
    /// A jump of one step followed by a slide.
    JumpThenRange(AxisClass),
    /// A slide that may turn once to either side.
    Hook(AxisClass),
    /// The dove move.
    Dove,
    /// The lion move over the whole block of five by five cells.
    FullLion,
    /// The lion move along the eight directions only.
    LimitedLion,
}

impl Move {
    /// The distance of the move, where it has one, is one that an aggregate
    /// keeps a total for.
    pub open spec fn valid(self) -> bool {
        match self {
            Move::Step(_, n) => n < STEP_SLOTS,
            Move::Jump(_, n) => n < JUMP_SLOTS,
            _ => true,
        }
    }

    /// Whether the distance of the move, where it has one, is one that an
    /// aggregate keeps a total for.
    #[verifier::when_used_as_spec(valid)]
    pub fn is_valid(self) -> (b: bool)
        ensures
            b == self.valid(),
    {
        match self {
            Move::Step(_, n) => n < STEP_SLOTS,
            Move::Jump(_, n) => n < JUMP_SLOTS,
            _ => true,
        }
    }
}

impl SimulationView {
    /// A piece with the moves `moves` can be given a value: its moves are
    /// valid, the divisor is not nothing, and the half-points can be worked
    /// out in a `u64`.
    pub open spec fn can_value(self, moves: Seq<Move>) -> bool {
        &&& all_valid(moves)
        &&& self.divisor > 0
        &&& 4 * self.face_total(moves) + self.divisor <= u64::MAX
    }

    /// The total that the move `m` selects. The knight counts twice, since
    /// its total holds the two landings at half their worth.
    pub open spec fn value_of(self, m: Move) -> int {
        match m {
            Move::Step(AxisClass::Orthogonal, n) => self.orthogonal_steps[n as int],
            Move::Step(AxisClass::Diagonal, n) => self.diagonal_steps[n as int],
            Move::Jump(AxisClass::Orthogonal, n) => self.orthogonal_jumps[n as int],
            Move::Jump(AxisClass::Diagonal, n) => self.diagonal_jumps[n as int],
            Move::Range(AxisClass::Orthogonal) => self.orthogonal_range,
            Move::Range(AxisClass::Diagonal) => self.diagonal_range,
            Move::Knight => 2 * self.knight_jump,
            Move::FlyingJump(AxisClass::Orthogonal) => self.orthogonal_flying_jump,
            Move::FlyingJump(AxisClass::Diagonal) => self.diagonal_flying_jump,
            Move::FlyingCapture(AxisClass::Orthogonal) => self.orthogonal_flying_capture,
            Move::FlyingCapture(AxisClass::Diagonal) => self.diagonal_flying_capture,
            Move::JumpThenRange(AxisClass::Orthogonal) => self.orthogonal_jump_then_range,
            Move::JumpThenRange(AxisClass::Diagonal) => self.diagonal_jump_then_range,
            Move::Hook(AxisClass::Orthogonal) => self.orthogonal_hook,
            Move::Hook(AxisClass::Diagonal) => self.diagonal_hook,
            Move::Dove => self.dove,
            Move::FullLion => self.full_lion,
            Move::LimitedLion => self.limited_lion,
        }
    }

    /// The totals that the moves of a piece select, added up.
    pub open spec fn face_total(self, moves: Seq<Move>) -> int
        decreases moves.len(),
    {
        if moves.len() == 0 {
            0
        } else {
            self.face_total(moves.drop_last()) + self.value_of(moves.last())
        }
    }
}

/// Every move of `moves` is valid.
pub open spec fn all_valid(moves: Seq<Move>) -> bool {
    forall|i: int| 0 <= i < moves.len() ==> (#[trigger] moves[i]).valid()
}

/// The fraction `total / divisor` in half-points, rounded to the nearest
/// half-point, and upwards from the middle between two.
pub open spec fn half_points(total: int, divisor: int) -> int {
    (4 * total + divisor) / (2 * divisor)
}

/// The half-points of a fraction lie within a quarter-point of it: twice the
/// fraction is at least half a unit below the next number up, and at most half
/// a unit above the number itself.
pub proof fn law_half_points_is_nearest(total: int, divisor: int)
    requires
        0 <= total,
        0 < divisor,
    ensures
        0 <= half_points(total, divisor),
        2 * divisor * half_points(total, divisor) - divisor <= 4 * total,
        4 * total < 2 * divisor * half_points(total, divisor) + divisor,
{
    let h = half_points(total, divisor);
    let n = 4 * total + divisor;
    let d = 2 * divisor;
    vstd::arithmetic::div_mod::lemma_fundamental_div_mod(n, d);
    vstd::arithmetic::div_mod::lemma_mod_bound(n, d);
    vstd::arithmetic::div_mod::lemma_div_pos_is_pos(n, d);
    assert(d * h == 2 * divisor * h) by (nonlinear_arith)
        requires
            d == 2 * divisor,
    ;
}

/// A valid move selects a total that is not negative, and a longer list of
/// valid moves selects at least as much as its beginning.
pub proof fn lemma_face_total_grows(v: SimulationView, moves: Seq<Move>, k: int)
    requires
        v.well_formed(),
        v.fits(),
        all_valid(moves),
        0 <= k <= moves.len(),
    ensures
        0 <= v.face_total(moves.take(k)) <= v.face_total(moves),
        all_valid(moves.take(k)),
    decreases moves.len() - k,
{
    let front = moves.take(k);
    assert(all_valid(front)) by {
        assert forall|i: int| 0 <= i < front.len() implies (#[trigger] front[i]).valid() by {
            assert(front[i] == moves[i]);
        }
    }
    if k == moves.len() {
        assert(front =~= moves);
        lemma_face_total_sign(v, moves);
    } else {
        lemma_face_total_grows(v, moves, k + 1);
        let next = moves.take(k + 1);
        assert(next.drop_last() =~= front);
        assert(next.last() == moves[k]);
        lemma_value_of_sign(v, moves[k]);
        lemma_face_total_sign(v, front);
    }
}

/// A valid move selects a total that is not negative.
pub proof fn lemma_value_of_sign(v: SimulationView, m: Move)
    requires
        v.well_formed(),
        v.fits(),
        m.valid(),
    ensures
        0 <= v.value_of(m),
{
    match m {
        Move::Step(AxisClass::Orthogonal, n) => {
            assert(0 <= v.orthogonal_steps[n as int]);
        },
        Move::Step(AxisClass::Diagonal, n) => {
            assert(0 <= v.diagonal_steps[n as int]);
        },
        Move::Jump(AxisClass::Orthogonal, n) => {
            assert(0 <= v.orthogonal_jumps[n as int]);
        },
        Move::Jump(AxisClass::Diagonal, n) => {
            assert(0 <= v.diagonal_jumps[n as int]);
        },
        _ => {},
    }
}

/// Valid moves select totals that add up to nothing negative.
pub proof fn lemma_face_total_sign(v: SimulationView, moves: Seq<Move>)
    requires
        v.well_formed(),
        v.fits(),
        all_valid(moves),
    ensures
        0 <= v.face_total(moves),
    decreases moves.len(),
{
    if moves.len() > 0 {
        let front = moves.drop_last();
        assert forall|i: int| 0 <= i < front.len() implies (#[trigger] front[i]).valid() by {
            assert(front[i] == moves[i]);
        }
        lemma_face_total_sign(v, front);
        lemma_value_of_sign(v, moves.last());
    }
}

impl Simulation {
    /// The total that the move `m` selects, over the aggregate's divisor.
    pub fn value_of(&self, m: Move) -> (total: u64)
        requires
            m.valid(),
            self@.value_of(m) <= u64::MAX,
        ensures
            total == self@.value_of(m),
    {
        match m {
            Move::Step(AxisClass::Orthogonal, n) => self.orthogonal_steps[n],
            Move::Step(AxisClass::Diagonal, n) => self.diagonal_steps[n],
            Move::Jump(AxisClass::Orthogonal, n) => self.orthogonal_jumps[n],
            Move::Jump(AxisClass::Diagonal, n) => self.diagonal_jumps[n],
            Move::Range(AxisClass::Orthogonal) => self.orthogonal_range,
            Move::Range(AxisClass::Diagonal) => self.diagonal_range,
            Move::Knight => 2 * self.knight_jump,
            Move::FlyingJump(AxisClass::Orthogonal) => self.orthogonal_flying_jump,
            Move::FlyingJump(AxisClass::Diagonal) => self.diagonal_flying_jump,
            Move::FlyingCapture(AxisClass::Orthogonal) => self.orthogonal_flying_capture,
            Move::FlyingCapture(AxisClass::Diagonal) => self.diagonal_flying_capture,
            Move::JumpThenRange(AxisClass::Orthogonal) => self.orthogonal_jump_then_range,
            Move::JumpThenRange(AxisClass::Diagonal) => self.diagonal_jump_then_range,
            Move::Hook(AxisClass::Orthogonal) => self.orthogonal_hook,
            Move::Hook(AxisClass::Diagonal) => self.diagonal_hook,
            Move::Dove => self.dove,
            Move::FullLion => self.full_lion,
            Move::LimitedLion => self.limited_lion,
        }
    }

    /// The totals that the moves of a piece select, added up, over the
    /// aggregate's divisor.
    pub fn face_total(&self, moves: &Vec<Move>) -> (total: u64)
        requires
            all_valid(moves@),
            self@.face_total(moves@) <= u64::MAX,
        ensures
            total == self@.face_total(moves@),
    {
        let mut total: u64 = 0;
        let mut k: usize = 0;
        proof {
            assert(moves@.take(0).len() == 0);
        }
        while k < moves.len()
            invariant
                0 <= k <= moves@.len(),
                all_valid(moves@),
                self@.face_total(moves@) <= u64::MAX,
                total == self@.face_total(moves@.take(k as int)),
            decreases moves@.len() - k,
        {
            let m = moves[k];
            proof {
                let next = moves@.take(k + 1);
                assert(next.drop_last() =~= moves@.take(k as int));
                assert(next.last() == m);
                lemma_face_total_grows(self@, moves@, k + 1);
                lemma_face_total_grows(self@, moves@, k as int);
            }
            total = total + self.value_of(m);
            k = k + 1;
        }
        assert(moves@.take(k as int) =~= moves@);
        total
    }

    /// The worth of a piece with the moves `moves`, in half-points: the sum of
    /// what its moves select, over the aggregate's divisor, rounded to the
    /// nearest half-point.
    pub fn face_value(&self, moves: &Vec<Move>) -> (halves: u64)
        requires
            self@.can_value(moves@),
        ensures
            halves == half_points(self@.face_total(moves@), self@.divisor),
    {
        proof {
            lemma_face_total_sign(self@, moves@);
        }
        round_to_halves(self.face_total(moves), self.divisor)
    }

    /// The worth of a piece with the moves `moves`, in half-points, where the
    /// piece can be given one, and nothing where it cannot.
    pub fn checked_face_value(&self, moves: &Vec<Move>) -> (halves: Option<u64>)
        ensures
            self@.can_value(moves@) ==> halves == Some(
                half_points(self@.face_total(moves@), self@.divisor) as u64,
            ),
            !self@.can_value(moves@) ==> halves is None,
    {
        if self.divisor == 0 {
            return None;
        }
        let limit: u64 = (u64::MAX - self.divisor) / 4;
        let mut total: u64 = 0;
        let mut k: usize = 0;
        proof {
            assert(moves@.take(0).len() == 0);
        }
        while k < moves.len()
            invariant
                0 <= k <= moves@.len(),
                self.divisor > 0,
                limit == (u64::MAX - self.divisor) / 4,
                all_valid(moves@.take(k as int)),
                total == self@.face_total(moves@.take(k as int)),
                total <= limit,
            decreases moves@.len() - k,
        {
            let m = moves[k];
            if !m.is_valid() {
                return None;
            }
            let ghost next = moves@.take(k + 1);
            proof {
                assert(next.drop_last() =~= moves@.take(k as int));
                assert(next.last() == m);
                assert forall|i: int| 0 <= i < next.len() implies (#[trigger] next[i]).valid() by {
                    if i < k {
                        assert(next[i] == moves@.take(k as int)[i]);
                    }
                }
                lemma_value_of_sign(self@, m);
            }
            let value: u128 = match m {
                Move::Knight => 2 * (self.knight_jump as u128),
                _ => self.value_of(m) as u128,
            };
            if value > (limit - total) as u128 {
                proof {
                    if all_valid(moves@) {
                        lemma_face_total_grows(self@, moves@, k + 1);
                    }
                }
                return None;
            }
            total = total + value as u64;
            k = k + 1;
        }
        proof {
            assert(moves@.take(k as int) =~= moves@);
            law_half_points_is_nearest(total as int, self.divisor as int);
        }
        Some(round_to_halves(total, self.divisor))
    }
}

/// The fraction `total / divisor` in half-points.
fn round_to_halves(total: u64, divisor: u64) -> (halves: u64)
    requires
        divisor > 0,
        4 * total + divisor <= u64::MAX,
    ensures
        halves == half_points(total as int, divisor as int),
{
    if divisor <= u64::MAX / 2 {
        (4 * total + divisor) / (2 * divisor)
    } else {
        proof {
            law_half_points_is_nearest(total as int, divisor as int);
            let h = half_points(total as int, divisor as int);
            assert(h == 0) by (nonlinear_arith)
                requires
                    0 <= h,
                    2 * divisor * h - divisor <= 4 * total,
                    4 * total + divisor <= u64::MAX,
                    2 * divisor > u64::MAX,
            ;
        }
        0
    }
}

} // verus!

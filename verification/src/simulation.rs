//! The mobility aggregate: one total per movement pattern, kept exactly.
//!
//! Every total is a whole number over the aggregate's common `divisor`, so an
//! aggregate stands for a vector of fractions. Adding two aggregates and
//! dividing one by a whole number are exact, which makes the sum of many
//! aggregates independent of the order in which they are combined.

use vstd::prelude::*;
use crate::combine::law_add_commutes;

verus! {

/// The mathematical content of a [`Simulation`]: the totals as integers, and
/// the divisor that they share.
pub struct SimulationView {
    pub orthogonal_steps: Seq<int>,
    pub diagonal_steps: Seq<int>,
    pub orthogonal_jumps: Seq<int>,
    pub diagonal_jumps: Seq<int>,
    pub dove: int,
    pub orthogonal_range: int,
    pub diagonal_range: int,
    pub knight_jump: int,
    pub orthogonal_flying_jump: int,
    pub diagonal_flying_jump: int,
    pub orthogonal_flying_capture: int,
    pub diagonal_flying_capture: int,
    pub orthogonal_jump_then_range: int,
    pub diagonal_jump_then_range: int,
    pub orthogonal_hook: int,
    pub diagonal_hook: int,
    pub full_lion: int,
    pub limited_lion: int,
    pub divisor: int,
}

/// Number of step distances that an aggregate keeps a total for.
pub const STEP_SLOTS: usize = 8;

/// Number of jump distances that an aggregate keeps a total for.
pub const JUMP_SLOTS: usize = 4;

/// Entry by entry, `a * left + b * right`.
pub open spec fn blend(a: Seq<int>, left: int, b: Seq<int>, right: int) -> Seq<int> {
    Seq::new(a.len(), |i: int| a[i] * left + b[i] * right)
}

/// Every entry of `s` lies between zero and `most`.
pub open spec fn all_within(s: Seq<int>, most: int) -> bool {
    forall|i: int| 0 <= i < s.len() ==> 0 <= #[trigger] s[i] <= most
}

impl SimulationView {
    /// The aggregate of nothing: every total is zero, over the divisor one.
    pub open spec fn zero() -> SimulationView {
        SimulationView {
            orthogonal_steps: Seq::new(STEP_SLOTS as nat, |i: int| 0int),
            diagonal_steps: Seq::new(STEP_SLOTS as nat, |i: int| 0int),
            orthogonal_jumps: Seq::new(JUMP_SLOTS as nat, |i: int| 0int),
            diagonal_jumps: Seq::new(JUMP_SLOTS as nat, |i: int| 0int),
            dove: 0,
            orthogonal_range: 0,
            diagonal_range: 0,
            knight_jump: 0,
            orthogonal_flying_jump: 0,
            diagonal_flying_jump: 0,
            orthogonal_flying_capture: 0,
            diagonal_flying_capture: 0,
            orthogonal_jump_then_range: 0,
            diagonal_jump_then_range: 0,
            orthogonal_hook: 0,
            diagonal_hook: 0,
            full_lion: 0,
            limited_lion: 0,
            divisor: 1,
        }
    }

    /// The four sequences have the lengths that a [`Simulation`] gives them.
    pub open spec fn well_formed(self) -> bool {
        &&& self.orthogonal_steps.len() == STEP_SLOTS
        &&& self.diagonal_steps.len() == STEP_SLOTS
        &&& self.orthogonal_jumps.len() == JUMP_SLOTS
        &&& self.diagonal_jumps.len() == JUMP_SLOTS
    }

    /// Every total lies between zero and `most`.
    pub open spec fn within(self, most: int) -> bool {
        &&& all_within(self.orthogonal_steps, most)
        &&& all_within(self.diagonal_steps, most)
        &&& all_within(self.orthogonal_jumps, most)
        &&& all_within(self.diagonal_jumps, most)
        &&& 0 <= self.dove <= most
        &&& 0 <= self.orthogonal_range <= most
        &&& 0 <= self.diagonal_range <= most
        &&& 0 <= self.knight_jump <= most
        &&& 0 <= self.orthogonal_flying_jump <= most
        &&& 0 <= self.diagonal_flying_jump <= most
        &&& 0 <= self.orthogonal_flying_capture <= most
        &&& 0 <= self.diagonal_flying_capture <= most
        &&& 0 <= self.orthogonal_jump_then_range <= most
        &&& 0 <= self.diagonal_jump_then_range <= most
        &&& 0 <= self.orthogonal_hook <= most
        &&& 0 <= self.diagonal_hook <= most
        &&& 0 <= self.full_lion <= most
        &&& 0 <= self.limited_lion <= most
    }

    /// Every total and the divisor can be held in a `u64`.
    pub open spec fn fits(self) -> bool {
        self.within(u64::MAX as int) && 0 <= self.divisor <= u64::MAX
    }

    /// The totals of `self` times `left` plus those of `other` times `right`,
    /// over `divisor`.
    pub open spec fn blend(
        self,
        left: int,
        other: SimulationView,
        right: int,
        divisor: int,
    ) -> SimulationView {
        SimulationView {
            orthogonal_steps: blend(self.orthogonal_steps, left, other.orthogonal_steps, right),
            diagonal_steps: blend(self.diagonal_steps, left, other.diagonal_steps, right),
            orthogonal_jumps: blend(self.orthogonal_jumps, left, other.orthogonal_jumps, right),
            diagonal_jumps: blend(self.diagonal_jumps, left, other.diagonal_jumps, right),
            dove: self.dove * left + other.dove * right,
            orthogonal_range: self.orthogonal_range * left + other.orthogonal_range * right,
            diagonal_range: self.diagonal_range * left + other.diagonal_range * right,
            knight_jump: self.knight_jump * left + other.knight_jump * right,
            orthogonal_flying_jump: self.orthogonal_flying_jump * left
                + other.orthogonal_flying_jump * right,
            diagonal_flying_jump: self.diagonal_flying_jump * left + other.diagonal_flying_jump
                * right,
            orthogonal_flying_capture: self.orthogonal_flying_capture * left
                + other.orthogonal_flying_capture * right,
            diagonal_flying_capture: self.diagonal_flying_capture * left
                + other.diagonal_flying_capture * right,
            orthogonal_jump_then_range: self.orthogonal_jump_then_range * left
                + other.orthogonal_jump_then_range * right,
            diagonal_jump_then_range: self.diagonal_jump_then_range * left
                + other.diagonal_jump_then_range * right,
            orthogonal_hook: self.orthogonal_hook * left + other.orthogonal_hook * right,
            diagonal_hook: self.diagonal_hook * left + other.diagonal_hook * right,
            full_lion: self.full_lion * left + other.full_lion * right,
            limited_lion: self.limited_lion * left + other.limited_lion * right,
            divisor,
        }
    }

    /// The sum of two aggregates, total by total. Over one divisor the totals
    /// are added as they are; over two, each side is first brought over the
    /// product of both.
    pub open spec fn add(self, other: SimulationView) -> SimulationView {
        if self.divisor == other.divisor {
            self.blend(1, other, 1, self.divisor)
        } else {
            self.blend(other.divisor, other, self.divisor, self.divisor * other.divisor)
        }
    }

    /// The aggregate divided by `by`: the same totals over a divisor `by`
    /// times as large.
    pub open spec fn div(self, by: int) -> SimulationView {
        SimulationView { divisor: self.divisor * by, ..self }
    }

    /// The total of a single orthogonal step, which is the unit of value.
    pub open spec fn pawn(self) -> int {
        self.orthogonal_steps[1]
    }

    /// The aggregate divided by the fraction that its pawn total stands for:
    /// the same totals over the pawn total.
    pub open spec fn normalized(self) -> SimulationView {
        SimulationView { divisor: self.pawn(), ..self }
    }
}

/// Totals that lie within one bound lie within every larger one.
pub proof fn lemma_within_grows(v: SimulationView, most: int, more: int)
    requires
        v.within(most),
        most <= more,
    ensures
        v.within(more),
{
}

/// The sum of two aggregates over one divisor, or of the aggregate of nothing
/// and another, has that divisor, and its totals lie within the sum of the
/// bounds of both.
pub proof fn lemma_add_within(a: SimulationView, ma: int, b: SimulationView, mb: int)
    requires
        a.well_formed(),
        b.well_formed(),
        a.within(ma),
        b.within(mb),
        a.divisor == b.divisor || a == SimulationView::zero(),
    ensures
        a.add(b).well_formed(),
        a.add(b).within(ma + mb),
        a.add(b).divisor == b.divisor,
{
    let sum = a.add(b);
    if a.divisor == b.divisor {
        assert(sum == a.blend(1, b, 1, a.divisor));
        assert(all_within(sum.orthogonal_steps, ma + mb)) by {
            assert forall|i: int| 0 <= i < sum.orthogonal_steps.len() implies 0
                <= #[trigger] sum.orthogonal_steps[i] <= ma + mb by {
                assert(0 <= a.orthogonal_steps[i] <= ma);
                assert(0 <= b.orthogonal_steps[i] <= mb);
            }
        }
        assert(all_within(sum.diagonal_steps, ma + mb)) by {
            assert forall|i: int| 0 <= i < sum.diagonal_steps.len() implies 0
                <= #[trigger] sum.diagonal_steps[i] <= ma + mb by {
                assert(0 <= a.diagonal_steps[i] <= ma);
                assert(0 <= b.diagonal_steps[i] <= mb);
            }
        }
        assert(all_within(sum.orthogonal_jumps, ma + mb)) by {
            assert forall|i: int| 0 <= i < sum.orthogonal_jumps.len() implies 0
                <= #[trigger] sum.orthogonal_jumps[i] <= ma + mb by {
                assert(0 <= a.orthogonal_jumps[i] <= ma);
                assert(0 <= b.orthogonal_jumps[i] <= mb);
            }
        }
        assert(all_within(sum.diagonal_jumps, ma + mb)) by {
            assert forall|i: int| 0 <= i < sum.diagonal_jumps.len() implies 0
                <= #[trigger] sum.diagonal_jumps[i] <= ma + mb by {
                assert(0 <= a.diagonal_jumps[i] <= ma);
                assert(0 <= b.diagonal_jumps[i] <= mb);
            }
        }
    } else {
        assert(sum == a.blend(b.divisor, b, 1, b.divisor));
        assert(0 * b.divisor == 0);
        assert(0 <= ma) by {
            assert(0 <= a.dove <= ma);
        }
        assert(sum.orthogonal_steps =~= b.orthogonal_steps);
        assert(sum.diagonal_steps =~= b.diagonal_steps);
        assert(sum.orthogonal_jumps =~= b.orthogonal_jumps);
        assert(sum.diagonal_jumps =~= b.diagonal_jumps);
        lemma_within_grows(b, mb, ma + mb);
    }
}

/// Mobility totals of one board or of many, one per movement pattern, each
/// standing for the fraction `total / divisor`.
#[derive(Copy, Clone, Debug, PartialEq, Eq)]
pub struct Simulation {
    pub orthogonal_steps: [u64; 8],
    pub diagonal_steps: [u64; 8],
    pub orthogonal_jumps: [u64; 4],
    pub diagonal_jumps: [u64; 4],
    pub dove: u64,
    pub orthogonal_range: u64,
    pub diagonal_range: u64,
    pub knight_jump: u64,
    pub orthogonal_flying_jump: u64,
    pub diagonal_flying_jump: u64,
    pub orthogonal_flying_capture: u64,
    pub diagonal_flying_capture: u64,
    pub orthogonal_jump_then_range: u64,
    pub diagonal_jump_then_range: u64,
    pub orthogonal_hook: u64,
    pub diagonal_hook: u64,
    pub full_lion: u64,
    pub limited_lion: u64,
    pub divisor: u64,
}

/// The entries of an array as integers.
pub open spec fn entries<const N: usize>(a: [u64; N]) -> Seq<int> {
    Seq::new(N as nat, |i: int| a@[i] as int)
}

impl View for Simulation {
    type V = SimulationView;

    open spec fn view(&self) -> SimulationView {
        SimulationView {
            orthogonal_steps: entries(self.orthogonal_steps),
            diagonal_steps: entries(self.diagonal_steps),
            orthogonal_jumps: entries(self.orthogonal_jumps),
            diagonal_jumps: entries(self.diagonal_jumps),
            dove: self.dove as int,
            orthogonal_range: self.orthogonal_range as int,
            diagonal_range: self.diagonal_range as int,
            knight_jump: self.knight_jump as int,
            orthogonal_flying_jump: self.orthogonal_flying_jump as int,
            diagonal_flying_jump: self.diagonal_flying_jump as int,
            orthogonal_flying_capture: self.orthogonal_flying_capture as int,
            diagonal_flying_capture: self.diagonal_flying_capture as int,
            orthogonal_jump_then_range: self.orthogonal_jump_then_range as int,
            diagonal_jump_then_range: self.diagonal_jump_then_range as int,
            orthogonal_hook: self.orthogonal_hook as int,
            diagonal_hook: self.diagonal_hook as int,
            full_lion: self.full_lion as int,
            limited_lion: self.limited_lion as int,
            divisor: self.divisor as int,
        }
    }
}

/// `a * left + b * right`, for numbers whose blend fits.
fn blend_one(a: u64, left: u64, b: u64, right: u64) -> (out: u64)
    requires
        a * left + b * right <= u64::MAX,
    ensures
        out == a * left + b * right,
{
    assert(0 <= a * left && 0 <= b * right) by (nonlinear_arith);
    a * left + b * right
}

/// Entry by entry, `a * left + b * right`, for arrays whose blend fits.
fn blend_all<const N: usize>(a: &[u64; N], left: u64, b: &[u64; N], right: u64) -> (out: [u64; N])
    requires
        all_within(blend(entries(*a), left as int, entries(*b), right as int), u64::MAX as int),
    ensures
        entries(out) == blend(entries(*a), left as int, entries(*b), right as int),
{
    let mut out = *a;
    let mut i: usize = 0;
    while i < N
        invariant
            0 <= i <= N,
            all_within(blend(entries(*a), left as int, entries(*b), right as int), u64::MAX as int),
            forall|j: int| 0 <= j < i ==> out@[j] == a@[j] * left + b@[j] * right,
        decreases N - i,
    {
        assert(blend(entries(*a), left as int, entries(*b), right as int)[i as int] == a@[i as int]
            * left + b@[i as int] * right);
        out[i] = blend_one(a[i], left, b[i], right);
        i = i + 1;
    }
    assert(entries(out) =~= blend(entries(*a), left as int, entries(*b), right as int));
    out
}

impl Simulation {
    /// The aggregate of nothing.
    pub fn new() -> (zero: Simulation)
        ensures
            zero@ == SimulationView::zero(),
    {
        let zero = Simulation {
            orthogonal_steps: [0; 8],
            diagonal_steps: [0; 8],
            orthogonal_jumps: [0; 4],
            diagonal_jumps: [0; 4],
            dove: 0,
            orthogonal_range: 0,
            diagonal_range: 0,
            knight_jump: 0,
            orthogonal_flying_jump: 0,
            diagonal_flying_jump: 0,
            orthogonal_flying_capture: 0,
            diagonal_flying_capture: 0,
            orthogonal_jump_then_range: 0,
            diagonal_jump_then_range: 0,
            orthogonal_hook: 0,
            diagonal_hook: 0,
            full_lion: 0,
            limited_lion: 0,
            divisor: 1,
        };
        assert(zero@.orthogonal_steps =~= SimulationView::zero().orthogonal_steps);
        assert(zero@.diagonal_steps =~= SimulationView::zero().diagonal_steps);
        assert(zero@.orthogonal_jumps =~= SimulationView::zero().orthogonal_jumps);
        assert(zero@.diagonal_jumps =~= SimulationView::zero().diagonal_jumps);
        zero
    }

    /// The total of a single orthogonal step, over the aggregate's divisor.
    pub fn pawn(&self) -> (total: u64)
        ensures
            total == self@.pawn(),
    {
        self.orthogonal_steps[1]
    }

    /// Adds two aggregates, total by total. The order of the two does not
    /// matter.
    pub fn add(self, rhs: Simulation) -> (sum: Simulation)
        requires
            self@.add(rhs@).fits(),
        ensures
            sum@ == self@.add(rhs@),
            sum@ == rhs@.add(self@),
    {
        proof {
            law_add_commutes(self@, rhs@);
        }
        let same = self.divisor == rhs.divisor;
        let left: u64 = if same {
            1
        } else {
            rhs.divisor
        };
        let right: u64 = if same {
            1
        } else {
            self.divisor
        };
        let divisor: u64 = if same {
            self.divisor
        } else {
            self.divisor * rhs.divisor
        };
        let ghost goal = self@.blend(left as int, rhs@, right as int, divisor as int);
        assert(goal == self@.add(rhs@));
        let sum = Simulation {
            orthogonal_steps: blend_all(&self.orthogonal_steps, left, &rhs.orthogonal_steps, right),
            diagonal_steps: blend_all(&self.diagonal_steps, left, &rhs.diagonal_steps, right),
            orthogonal_jumps: blend_all(&self.orthogonal_jumps, left, &rhs.orthogonal_jumps, right),
            diagonal_jumps: blend_all(&self.diagonal_jumps, left, &rhs.diagonal_jumps, right),
            dove: blend_one(self.dove, left, rhs.dove, right),
            orthogonal_range: blend_one(self.orthogonal_range, left, rhs.orthogonal_range, right),
            diagonal_range: blend_one(self.diagonal_range, left, rhs.diagonal_range, right),
            knight_jump: blend_one(self.knight_jump, left, rhs.knight_jump, right),
            orthogonal_flying_jump: blend_one(
                self.orthogonal_flying_jump,
                left,
                rhs.orthogonal_flying_jump,
                right,
            ),
            diagonal_flying_jump: blend_one(
                self.diagonal_flying_jump,
                left,
                rhs.diagonal_flying_jump,
                right,
            ),
            orthogonal_flying_capture: blend_one(
                self.orthogonal_flying_capture,
                left,
                rhs.orthogonal_flying_capture,
                right,
            ),
            diagonal_flying_capture: blend_one(
                self.diagonal_flying_capture,
                left,
                rhs.diagonal_flying_capture,
                right,
            ),
            orthogonal_jump_then_range: blend_one(
                self.orthogonal_jump_then_range,
                left,
                rhs.orthogonal_jump_then_range,
                right,
            ),
            diagonal_jump_then_range: blend_one(
                self.diagonal_jump_then_range,
                left,
                rhs.diagonal_jump_then_range,
                right,
            ),
            orthogonal_hook: blend_one(self.orthogonal_hook, left, rhs.orthogonal_hook, right),
            diagonal_hook: blend_one(self.diagonal_hook, left, rhs.diagonal_hook, right),
            full_lion: blend_one(self.full_lion, left, rhs.full_lion, right),
            limited_lion: blend_one(self.limited_lion, left, rhs.limited_lion, right),
            divisor,
        };
        sum
    }

    /// Adds `rhs` to the aggregate in place.
    pub fn add_assign(&mut self, rhs: Simulation)
        requires
            old(self)@.add(rhs@).fits(),
        ensures
            final(self)@ == old(self)@.add(rhs@),
    {
        *self = self.add(rhs);
    }

    /// Divides every total by `by`, exactly: the totals stay and the divisor
    /// grows `by` times.
    pub fn div(self, by: u64) -> (quotient: Simulation)
        requires
            self.divisor * by <= u64::MAX,
        ensures
            quotient@ == self@.div(by as int),
    {
        Simulation { divisor: self.divisor * by, ..self }
    }

    /// Divides every total by what the pawn total stands for, which makes the
    /// single orthogonal step worth exactly one: the totals stay and the pawn
    /// total becomes the divisor.
    pub fn normalized(self) -> (pinned: Simulation)
        ensures
            pinned@ == self@.normalized(),
    {
        Simulation { divisor: self.orthogonal_steps[1], ..self }
    }
}

} // verus!

//! The eight compass directions shared by every movement pattern.
//!
//! North is towards smaller `y`, east towards larger `x`.

use vstd::prelude::*;

verus! {

/// One of the eight unit offsets around a cell.
#[derive(Copy, Clone, PartialEq, Eq, Structural, Debug, Hash)]
pub enum Direction {
    North,
    NorthEast,
    East,
    SouthEast,
    South,
    SouthWest,
    West,
    NorthWest,
}

impl Direction {
    /// Step along the x axis: -1, 0 or 1.
    pub open spec fn spec_dx(self) -> int {
        match self {
            Direction::North | Direction::South => 0,
            Direction::NorthEast | Direction::East | Direction::SouthEast => 1,
            Direction::SouthWest | Direction::West | Direction::NorthWest => -1,
        }
    }

    /// Step along the y axis: -1, 0 or 1.
    pub open spec fn spec_dy(self) -> int {
        match self {
            Direction::East | Direction::West => 0,
            Direction::SouthEast | Direction::South | Direction::SouthWest => 1,
            Direction::North | Direction::NorthEast | Direction::NorthWest => -1,
        }
    }

    /// Exactly one of the two steps is zero.
    pub open spec fn spec_is_orthogonal(self) -> bool {
        (self.spec_dx() == 0) != (self.spec_dy() == 0)
    }

    /// The direction a quarter turn clockwise from this one.
    pub open spec fn spec_turn_right(self) -> Direction {
        match self {
            Direction::North => Direction::East,
            Direction::NorthEast => Direction::SouthEast,
            Direction::East => Direction::South,
            Direction::SouthEast => Direction::SouthWest,
            Direction::South => Direction::West,
            Direction::SouthWest => Direction::NorthWest,
            Direction::West => Direction::North,
            Direction::NorthWest => Direction::NorthEast,
        }
    }

    /// The direction a quarter turn counter-clockwise from this one.
    pub open spec fn spec_turn_left(self) -> Direction {
        match self {
            Direction::North => Direction::West,
            Direction::NorthEast => Direction::NorthWest,
            Direction::East => Direction::North,
            Direction::SouthEast => Direction::NorthEast,
            Direction::South => Direction::East,
            Direction::SouthWest => Direction::SouthEast,
            Direction::West => Direction::South,
            Direction::NorthWest => Direction::SouthWest,
        }
    }

    /// Step along the x axis: -1, 0 or 1.
    pub fn dx(self) -> (d: i64)
        ensures
            d == self.spec_dx(),
            -1 <= d <= 1,
    {
        match self {
            Direction::North | Direction::South => 0,
            Direction::NorthEast | Direction::East | Direction::SouthEast => 1,
            Direction::SouthWest | Direction::West | Direction::NorthWest => -1,
        }
    }

    /// Step along the y axis: -1, 0 or 1.
    pub fn dy(self) -> (d: i64)
        ensures
            d == self.spec_dy(),
            -1 <= d <= 1,
    {
        match self {
            Direction::East | Direction::West => 0,
            Direction::SouthEast | Direction::South | Direction::SouthWest => 1,
            Direction::North | Direction::NorthEast | Direction::NorthWest => -1,
        }
    }

    /// Whether the direction runs along a row or a column.
    #[verifier::when_used_as_spec(spec_is_orthogonal)]
    pub fn is_orthogonal(self) -> (b: bool)
        ensures
            b == self.spec_is_orthogonal(),
    {
        match self {
            Direction::North | Direction::East | Direction::South | Direction::West => true,
            _ => false,
        }
    }

    /// The direction a quarter turn clockwise from this one.
    #[verifier::when_used_as_spec(spec_turn_right)]
    pub fn turn_right(self) -> (d: Direction)
        ensures
            d == self.spec_turn_right(),
    {
        match self {
            Direction::North => Direction::East,
            Direction::NorthEast => Direction::SouthEast,
            Direction::East => Direction::South,
            Direction::SouthEast => Direction::SouthWest,
            Direction::South => Direction::West,
            Direction::SouthWest => Direction::NorthWest,
            Direction::West => Direction::North,
            Direction::NorthWest => Direction::NorthEast,
        }
    }

    /// The direction a quarter turn counter-clockwise from this one.
    #[verifier::when_used_as_spec(spec_turn_left)]
    pub fn turn_left(self) -> (d: Direction)
        ensures
            d == self.spec_turn_left(),
    {
        match self {
            Direction::North => Direction::West,
            Direction::NorthEast => Direction::NorthWest,
            Direction::East => Direction::North,
            Direction::SouthEast => Direction::NorthEast,
            Direction::South => Direction::East,
            Direction::SouthWest => Direction::SouthEast,
            Direction::West => Direction::South,
            Direction::NorthWest => Direction::SouthWest,
        }
    }

    /// A quarter turn swaps the two steps and negates one of them, so it keeps
    /// the axis class and is undone by the opposite quarter turn.
    pub proof fn law_quarter_turns_are_perpendicular(self)
        ensures
            self.turn_right().spec_dx() == -self.spec_dy(),
            self.turn_right().spec_dy() == self.spec_dx(),
            self.turn_left().spec_dx() == self.spec_dy(),
            self.turn_left().spec_dy() == -self.spec_dx(),
            self.turn_right().is_orthogonal() == self.is_orthogonal(),
            self.turn_left().is_orthogonal() == self.is_orthogonal(),
            self.turn_right().turn_left() == self,
            self.turn_left().turn_right() == self,
    {
    }
}

/// The two families of directions, which share their movement rules by
/// symmetry.
#[derive(Copy, Clone, PartialEq, Eq, Structural, Debug, Hash)]
pub enum AxisClass {
    Orthogonal,
    Diagonal,
}

impl AxisClass {
    /// The four directions of the class, clockwise.
    pub open spec fn spec_directions(self) -> Seq<Direction> {
        match self {
            AxisClass::Orthogonal => seq![
                Direction::North,
                Direction::East,
                Direction::South,
                Direction::West,
            ],
            AxisClass::Diagonal => seq![
                Direction::NorthEast,
                Direction::SouthEast,
                Direction::SouthWest,
                Direction::NorthWest,
            ],
        }
    }

    /// The sum of `f` over the four directions of the class.
    pub open spec fn sum(self, f: spec_fn(Direction) -> int) -> int {
        let d = self.spec_directions();
        f(d[0]) + f(d[1]) + f(d[2]) + f(d[3])
    }

    /// The four directions of the class, clockwise.
    pub fn directions(self) -> (d: [Direction; 4])
        ensures
            d@ == self.spec_directions(),
    {
        let d = match self {
            AxisClass::Orthogonal => [
                Direction::North,
                Direction::East,
                Direction::South,
                Direction::West,
            ],
            AxisClass::Diagonal => [
                Direction::NorthEast,
                Direction::SouthEast,
                Direction::SouthWest,
                Direction::NorthWest,
            ],
        };
        assert(d@ =~= self.spec_directions());
        d
    }

    /// Every direction of a class belongs to it, and to no other class.
    pub proof fn law_directions_belong_to_their_class(self)
        ensures
            self.spec_directions().len() == 4,
            forall|i: int|
                0 <= i < 4 ==> (#[trigger] self.spec_directions()[i]).spec_axis() == self,
    {
    }
}

impl Direction {
    /// The class of the direction.
    pub open spec fn spec_axis(self) -> AxisClass {
        if self.spec_is_orthogonal() {
            AxisClass::Orthogonal
        } else {
            AxisClass::Diagonal
        }
    }

    /// The class of the direction.
    #[verifier::when_used_as_spec(spec_axis)]
    pub fn axis(self) -> (axis: AxisClass)
        ensures
            axis == self.spec_axis(),
    {
        if self.is_orthogonal() {
            AxisClass::Orthogonal
        } else {
            AxisClass::Diagonal
        }
    }
}

} // verus!

//! An 8-connected unit-vector direction with rotation operations.
//!
//! A `Direction` is one of the eight unit steps on a grid whose `y` axis
//! grows downward.  The variants are enumerated clockwise starting from
//! `Right`, so turning right adds two eighth-turns and turning left removes
//! two.  Every operation is a total function over the 8-way domain.

use vstd::prelude::*;

verus! {

#[derive(Clone, Copy, Debug, PartialEq, Eq, Structural)]
pub enum Direction {
    Right,
    DownRight,
    Down,
    DownLeft,
    Left,
    UpLeft,
    Up,
    UpRight,
}

impl Direction {
    /// Position of the direction in the clockwise enumeration, `0` to `7`.
    pub open spec fn index(self) -> int {
        match self {
            Direction::Right => 0,
            Direction::DownRight => 1,
            Direction::Down => 2,
            Direction::DownLeft => 3,
            Direction::Left => 4,
            Direction::UpLeft => 5,
            Direction::Up => 6,
            Direction::UpRight => 7,
        }
    }

    /// The direction at a given position of the clockwise enumeration.
    pub open spec fn spec_from_index(i: int) -> Direction {
        if i == 0 {
            Direction::Right
        } else if i == 1 {
            Direction::DownRight
        } else if i == 2 {
            Direction::Down
        } else if i == 3 {
            Direction::DownLeft
        } else if i == 4 {
            Direction::Left
        } else if i == 5 {
            Direction::UpLeft
        } else if i == 6 {
            Direction::Up
        } else {
            Direction::UpRight
        }
    }

    /// The direction reached from `self` by `eighths` clockwise eighth-turns
    /// (45 degrees each); negative amounts turn counter-clockwise.
    pub open spec fn spec_turn(self, eighths: int) -> Direction {
        Direction::spec_from_index((self.index() + eighths) % 8)
    }

    /// The unit step of the direction, on a grid whose `y` axis grows down.
    pub open spec fn spec_vector(self) -> (int, int) {
        match self {
            Direction::Right => (1, 0),
            Direction::DownRight => (1, 1),
            Direction::Down => (0, 1),
            Direction::DownLeft => (-1, 1),
            Direction::Left => (-1, 0),
            Direction::UpLeft => (-1, -1),
            Direction::Up => (0, -1),
            Direction::UpRight => (1, -1),
        }
    }

    /// Constructs the direction at clockwise position `i`.
    pub fn from_index(i: u8) -> (r: Direction)
        requires
            i < 8,
        ensures
            r == Direction::spec_from_index(i as int),
    {
        if i == 0 {
            Direction::Right
        } else if i == 1 {
            Direction::DownRight
        } else if i == 2 {
            Direction::Down
        } else if i == 3 {
            Direction::DownLeft
        } else if i == 4 {
            Direction::Left
        } else if i == 5 {
            Direction::UpLeft
        } else if i == 6 {
            Direction::Up
        } else {
            Direction::UpRight
        }
    }

    /// Rotates by `eighths` clockwise eighth-turns; negative amounts rotate
    /// counter-clockwise.  Returns a new direction, leaving `self` unchanged.
    pub fn turn(self, eighths: i8) -> (r: Direction)
        ensures
            r == self.spec_turn(eighths as int),
    {
        let idx: i32 = match self {
            Direction::Right => 0,
            Direction::DownRight => 1,
            Direction::Down => 2,
            Direction::DownLeft => 3,
            Direction::Left => 4,
            Direction::UpLeft => 5,
            Direction::Up => 6,
            Direction::UpRight => 7,
        };
        let shifted: i32 = ((idx + eighths as i32) % 8 + 8) % 8;
        Direction::from_index(shifted as u8)
    }

    /// A quarter-turn counter-clockwise.
    pub fn turn_left(self) -> (r: Direction)
        ensures
            r == self.spec_turn(6),
    {
        self.turn(-2)
    }

    /// A quarter-turn clockwise.
    pub fn turn_right(self) -> (r: Direction)
        ensures
            r == self.spec_turn(2),
    {
        self.turn(2)
    }

    /// A half-turn: the opposite direction.
    pub fn turn_back(self) -> (r: Direction)
        ensures
            r == self.spec_turn(4),
    {
        self.turn(4)
    }

    /// The direction perpendicular to `self`, a quarter-turn clockwise.
    pub fn perpendicular(self) -> (r: Direction)
        ensures
            r == self.spec_turn(2),
    {
        self.turn(2)
    }

    /// The unit step of the direction.
    pub fn as_vector(self) -> (r: (i32, i32))
        ensures
            (r.0 as int, r.1 as int) == self.spec_vector(),
    {
        match self {
            Direction::Right => (1, 0),
            Direction::DownRight => (1, 1),
            Direction::Down => (0, 1),
            Direction::DownLeft => (-1, 1),
            Direction::Left => (-1, 0),
            Direction::UpLeft => (-1, -1),
            Direction::Up => (0, -1),
            Direction::UpRight => (1, -1),
        }
    }

    /// The direction whose unit step is `(dx, dy)`, if there is one.
    pub fn from_vector(dx: i32, dy: i32) -> (r: Option<Direction>)
        ensures
            match r {
                Some(d) => d.spec_vector() == (dx as int, dy as int),
                None => forall|d: Direction| d.spec_vector() != (dx as int, dy as int),
            },
    {
        if dx == 1 && dy == 0 {
            Some(Direction::Right)
        } else if dx == 1 && dy == 1 {
            Some(Direction::DownRight)
        } else if dx == 0 && dy == 1 {
            Some(Direction::Down)
        } else if dx == -1 && dy == 1 {
            Some(Direction::DownLeft)
        } else if dx == -1 && dy == 0 {
            Some(Direction::Left)
        } else if dx == -1 && dy == -1 {
            Some(Direction::UpLeft)
        } else if dx == 0 && dy == -1 {
            Some(Direction::Up)
        } else if dx == 1 && dy == -1 {
            Some(Direction::UpRight)
        } else {
            None
        }
    }
}

/// Turning left and then right yields the original direction, for every
/// direction: the two quarter-turns are inverse to each other.
pub proof fn lemma_turn_left_right_round_trip(d: Direction)
    ensures
        d.spec_turn(6).spec_turn(2) == d,
        d.spec_turn(2).spec_turn(6) == d,
{
}

} // verus!

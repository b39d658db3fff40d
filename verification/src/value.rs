//! The tri-state value of a grid probe: a cell is white, black, or outside
//! the grid.

use vstd::prelude::*;

verus! {

#[derive(Clone, Copy, Debug, PartialEq, Eq, Structural)]
pub enum Value {
    /// The probed position lies outside the grid.
    Invalid,
    White,
    Black,
}

impl Value {
    /// The value a raw bounds-checked cell read stands for.
    pub open spec fn spec_from_cell(cell: Option<u8>) -> Value {
        match cell {
            None => Value::Invalid,
            Some(c) => if c == 0 {
                Value::White
            } else {
                Value::Black
            },
        }
    }

    pub fn from_cell(cell: Option<u8>) -> (r: Value)
        ensures
            r == Value::spec_from_cell(cell),
    {
        match cell {
            None => Value::Invalid,
            Some(c) => if c == 0 {
                Value::White
            } else {
                Value::Black
            },
        }
    }

    pub fn is_valid(self) -> (r: bool)
        ensures
            r == (self != Value::Invalid),
    {
        match self {
            Value::Invalid => false,
            _ => true,
        }
    }

    pub fn is_white(self) -> (r: bool)
        ensures
            r == (self == Value::White),
    {
        match self {
            Value::White => true,
            _ => false,
        }
    }

    pub fn is_black(self) -> (r: bool)
        ensures
            r == (self == Value::Black),
    {
        match self {
            Value::Black => true,
            _ => false,
        }
    }
}

} // verus!

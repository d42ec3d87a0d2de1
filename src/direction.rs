//! The four directions of a screen, and turning between them.
use vstd::prelude::*;

verus! {

#[derive(PartialEq, Eq, Structural, PartialOrd, Debug, Clone, Copy)]
pub enum Direction {
    Up,
    Right,
    Down,
    Left,
}

impl Default for Direction {
    fn default() -> (r: Self)
        ensures
            r == Direction::Up,
    {
        Direction::Up
    }
}

/// The direction a quarter turn clockwise from `d`.
pub open spec fn right_of(d: Direction) -> Direction {
    match d {
        Direction::Up => Direction::Right,
        Direction::Right => Direction::Down,
        Direction::Down => Direction::Left,
        Direction::Left => Direction::Up,
    }
}

/// The direction a quarter turn anticlockwise from `d`.
pub open spec fn left_of(d: Direction) -> Direction {
    match d {
        Direction::Up => Direction::Left,
        Direction::Right => Direction::Up,
        Direction::Down => Direction::Right,
        Direction::Left => Direction::Down,
    }
}

impl Direction {
    pub fn turn_right(&self) -> (r: Self)
        ensures
            r == right_of(*self),
            left_of(r) == *self,
    {
        match self {
            Self::Up => Self::Right,
            Self::Right => Self::Down,
            Self::Down => Self::Left,
            Self::Left => Self::Up,
        }
    }

    pub fn turn_left(&self) -> (r: Self)
        ensures
            r == left_of(*self),
            right_of(r) == *self,
    {
        match self {
            Self::Up => Self::Left,
            Self::Right => Self::Up,
            Self::Down => Self::Right,
            Self::Left => Self::Down,
        }
    }
}

} // verus!

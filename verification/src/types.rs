//! Shared small types: directions.

use vstd::prelude::*;

verus! {

/// A cardinal direction, or `Stop` (no direction at all).
///
/// Its wire code (see [`Direction::as_u8`]) is 0 up, 1 left, 2 down,
/// 3 right, 4 stop.
#[derive(Clone, Copy, PartialEq, Eq, Debug, Structural)]
pub enum Direction {
    Up,
    Left,
    Down,
    Right,
    Stop,
}

/// The wire code of a direction.
pub open spec fn code_of(d: Direction) -> u8 {
    match d {
        Direction::Up => 0,
        Direction::Left => 1,
        Direction::Down => 2,
        Direction::Right => 3,
        Direction::Stop => 4,
    }
}

/// The direction that a wire code stands for; every code above 3 is `Stop`.
pub open spec fn direction_of(v: u8) -> Direction {
    if v == 0 {
        Direction::Up
    } else if v == 1 {
        Direction::Left
    } else if v == 2 {
        Direction::Down
    } else if v == 3 {
        Direction::Right
    } else {
        Direction::Stop
    }
}

/// The reverse of a direction (`Stop` reverses to itself).
pub open spec fn opposite_of(d: Direction) -> Direction {
    match d {
        Direction::Up => Direction::Down,
        Direction::Down => Direction::Up,
        Direction::Left => Direction::Right,
        Direction::Right => Direction::Left,
        Direction::Stop => Direction::Stop,
    }
}

/// The unit step of a direction in (column, row) space; rows grow downwards.
pub open spec fn delta_of(d: Direction) -> (i32, i32) {
    match d {
        Direction::Up => (0i32, -1i32),
        Direction::Down => (0i32, 1i32),
        Direction::Left => (-1i32, 0i32),
        Direction::Right => (1i32, 0i32),
        Direction::Stop => (0i32, 0i32),
    }
}

impl Direction {
    pub fn opposite(self) -> (r: Direction)
        ensures
            r == opposite_of(self),
    {
        match self {
            Direction::Up => Direction::Down,
            Direction::Down => Direction::Up,
            Direction::Left => Direction::Right,
            Direction::Right => Direction::Left,
            Direction::Stop => Direction::Stop,
        }
    }

    /// Unit delta in (col, row) space.
    pub fn delta(self) -> (r: (i32, i32))
        ensures
            r == delta_of(self),
    {
        match self {
            Direction::Up => (0, -1),
            Direction::Down => (0, 1),
            Direction::Left => (-1, 0),
            Direction::Right => (1, 0),
            Direction::Stop => (0, 0),
        }
    }

    pub fn from_u8(v: u8) -> (r: Direction)
        ensures
            r == direction_of(v),
    {
        match v {
            0 => Direction::Up,
            1 => Direction::Left,
            2 => Direction::Down,
            3 => Direction::Right,
            _ => Direction::Stop,
        }
    }

    pub fn as_u8(self) -> (r: u8)
        ensures
            r == code_of(self),
    {
        match self {
            Direction::Up => 0,
            Direction::Left => 1,
            Direction::Down => 2,
            Direction::Right => 3,
            Direction::Stop => 4,
        }
    }
}

/// Reversing twice gives the direction back.
pub proof fn lemma_opposite_involution(d: Direction)
    ensures
        opposite_of(opposite_of(d)) == d,
{
}

/// The reverse of a direction steps exactly the other way.
pub proof fn lemma_opposite_delta(d: Direction)
    ensures
        delta_of(opposite_of(d)).0 == -delta_of(d).0,
        delta_of(opposite_of(d)).1 == -delta_of(d).1,
{
}

/// Decoding a direction's wire code gives the direction back, and encoding a
/// decoded code gives the code back when it is one of 0..=3 (4 otherwise).
pub proof fn lemma_code_round_trip(d: Direction, v: u8)
    ensures
        direction_of(code_of(d)) == d,
        code_of(direction_of(v)) == (if v <= 3 { v } else { 4u8 }),
{
}

/// Only `Stop` stands still; every other direction moves exactly one tile
/// along one axis.
pub proof fn lemma_delta_unit(d: Direction)
    ensures
        d == Direction::Stop <==> delta_of(d) == (0i32, 0i32),
        d != Direction::Stop ==> (delta_of(d).0 == 0) != (delta_of(d).1 == 0),
{
}

} // verus!

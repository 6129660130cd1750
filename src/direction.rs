use crate::error::ParseError;
use vstd::prelude::*;

verus! {

/// One of the four compass directions in which the turtle draws.
#[derive(Clone, Copy, Debug, PartialEq, Eq, Structural)]
pub enum Direction {
    West,
    North,
    East,
    South,
}

/// The direction that a character names, if any.
pub open spec fn direction_of(c: char) -> Option<Direction> {
    if c == 'W' {
        Some(Direction::West)
    } else if c == 'N' {
        Some(Direction::North)
    } else if c == 'E' {
        Some(Direction::East)
    } else if c == 'S' {
        Some(Direction::South)
    } else {
        None
    }
}

/// The outcome of decoding a character as a direction.
pub open spec fn decode_direction(c: char) -> Result<Direction, ParseError> {
    match direction_of(c) {
        Some(d) => Ok(d),
        None => Err(ParseError::InvalidDirection(c)),
    }
}

impl Direction {
    /// Decodes `W`, `N`, `E` or `S`; any other character is an
    /// `InvalidDirection` error that carries it.
    pub fn try_from(c: char) -> (r: Result<Direction, ParseError>)
        ensures
            r == decode_direction(c),
            r is Ok <==> (c == 'W' || c == 'N' || c == 'E' || c == 'S'),
    {
        match c {
            'W' => Ok(Direction::West),
            'N' => Ok(Direction::North),
            'E' => Ok(Direction::East),
            'S' => Ok(Direction::South),
            _ => Err(ParseError::InvalidDirection(c)),
        }
    }
}

} // verus!

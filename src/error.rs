use vstd::prelude::*;

verus! {

/// Why a numeric token could not be read as a `u32`.
#[derive(Clone, Copy, Debug, PartialEq, Eq, Structural)]
pub enum NumberError {
    /// The token holds no characters at all.
    Empty,
    /// The token holds a character that is not an ASCII digit.
    InvalidDigit,
    /// The token is all digits, but its value exceeds `u32::MAX`.
    Overflow,
}

/// The ways in which a line, or a whole program, can fail to parse.
#[derive(Clone, Copy, Debug, PartialEq, Eq, Structural)]
pub enum ParseError {
    /// The line has no characters to inspect.
    EmptyLine,
    /// The character given is not one of `W`, `N`, `E`, `S`.
    InvalidDirection(char),
    /// The leading character of the line names no instruction.
    InvalidCommand(char),
    /// The numeric argument of `P` or of a draw instruction is missing,
    /// not a run of digits, or out of range.
    InvalidNumber(NumberError),
}

} // verus!

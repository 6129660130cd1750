use crate::direction::{direction_of, Direction};
use crate::error::{NumberError, ParseError};
use crate::number::{all_digits, is_digit, number_of, read_number, token, token_end};
use crate::text::chars_of;
use vstd::prelude::*;

verus! {

/// One instruction of a turtle-graphics program.
#[derive(Clone, Copy, Debug, PartialEq, Eq, Structural)]
pub enum Command {
    /// Select the pen with this identifier.
    SelectPen(u32),
    /// Lower the pen onto the paper.
    PenDown,
    /// Lift the pen off the paper.
    PenUp,
    /// Move in a direction by a number of centimetres.
    Draw { direction: Direction, centimeters: u32 },
}

/// What follows the leading character of a line and the one separator
/// character after it.
pub open spec fn payload(l: Seq<char>) -> Seq<char> {
    if l.len() < 2 {
        Seq::empty()
    } else {
        l.skip(2)
    }
}

/// The numeric argument of a line: its token, read as a `u32`.
pub open spec fn argument_of(l: Seq<char>) -> Result<u32, NumberError> {
    number_of(token(payload(l)))
}

/// Whether a character opens an instruction: `D`, `U`, `P`, or a direction.
pub open spec fn opens_instruction(c: char) -> bool {
    c == 'D' || c == 'U' || c == 'P' || c == 'W' || c == 'N' || c == 'E' || c == 'S'
}

/// The outcome of parsing one line, by its leading character.
pub open spec fn command_of(l: Seq<char>) -> Result<Command, ParseError> {
    if l.len() == 0 {
        Err(ParseError::EmptyLine)
    } else {
        let c = l[0];
        if c == 'D' {
            Ok(Command::PenDown)
        } else if c == 'U' {
            Ok(Command::PenUp)
        } else if c == 'P' {
            match argument_of(l) {
                Ok(n) => Ok(Command::SelectPen(n)),
                Err(e) => Err(ParseError::InvalidNumber(e)),
            }
        } else {
            match direction_of(c) {
                Some(d) => match argument_of(l) {
                    Ok(n) => Ok(Command::Draw { direction: d, centimeters: n }),
                    Err(e) => Err(ParseError::InvalidNumber(e)),
                },
                None => Err(ParseError::InvalidCommand(c)),
            }
        }
    }
}

/// Reads the numeric argument of the line `chars[start..end]`: one separator
/// character after the leading one is skipped, and the token that follows,
/// up to the next whitespace, is read as a `u32`.
fn read_argument(chars: &Vec<char>, start: usize, end: usize) -> (r: Result<u32, ParseError>)
    requires
        start < end <= chars.len(),
    ensures
        r == (match argument_of(chars@.subrange(start as int, end as int)) {
            Ok(n) => Ok(n),
            Err(e) => Err(ParseError::InvalidNumber(e)),
        }),
{
    let ghost l = chars@.subrange(start as int, end as int);
    let from: usize = if end - start < 2 {
        end
    } else {
        start + 2
    };
    assert(chars@.subrange(from as int, end as int) =~= payload(l));
    let stop = token_end(chars, from, end);
    match read_number(chars, from, stop) {
        Ok(n) => Ok(n),
        Err(e) => Err(ParseError::InvalidNumber(e)),
    }
}

/// Parses the line `chars[start..end]`.
pub fn parse_span(chars: &Vec<char>, start: usize, end: usize) -> (r: Result<Command, ParseError>)
    requires
        start <= end <= chars.len(),
    ensures
        r == command_of(chars@.subrange(start as int, end as int)),
{
    if start == end {
        return Err(ParseError::EmptyLine);
    }
    let c = chars[start];
    match c {
        'D' => Ok(Command::PenDown),
        'U' => Ok(Command::PenUp),
        'P' => {
            let id = read_argument(chars, start, end)?;
            Ok(Command::SelectPen(id))
        },
        'W' | 'N' | 'E' | 'S' => {
            let direction = Direction::try_from(c)?;
            let centimeters = read_argument(chars, start, end)?;
            Ok(Command::Draw { direction, centimeters })
        },
        _ => Err(ParseError::InvalidCommand(c)),
    }
}

/// A line that opens with `P` or a direction, and whose numeric token holds
/// a character that is not a digit, fails with `InvalidDigit`.
pub proof fn lemma_non_digit_in_number(l: Seq<char>, i: int)
    requires
        l.len() > 0,
        l[0] == 'P' || direction_of(l[0]) is Some,
        0 <= i < token(payload(l)).len(),
        !is_digit(token(payload(l))[i]),
    ensures
        command_of(l) == Err::<Command, ParseError>(
            ParseError::InvalidNumber(NumberError::InvalidDigit),
        ),
{
    assert(!all_digits(token(payload(l))));
}

/// A draw instruction with no number after its separator, such as a bare
/// `W`, fails with `Empty`.
pub proof fn lemma_draw_without_number(l: Seq<char>)
    requires
        l.len() > 0,
        direction_of(l[0]) is Some,
        token(payload(l)).len() == 0,
    ensures
        command_of(l) == Err::<Command, ParseError>(ParseError::InvalidNumber(NumberError::Empty)),
{
}

impl Command {
    /// Parses one line of a program (without its line terminator).
    ///
    /// `D` and `U` stand alone and ignore the rest of the line. `P` and the
    /// directions `W`, `N`, `E`, `S` skip one separator character and read
    /// the token up to the next whitespace as a `u32`; what follows is
    /// ignored. An empty line is `EmptyLine`, another leading character is
    /// `InvalidCommand`, and a missing or malformed number is
    /// `InvalidNumber`.
    pub fn try_from(line: &str) -> (r: Result<Command, ParseError>)
        ensures
            r == command_of(line@),
            line@.len() == 0 ==> r == Err::<Command, ParseError>(ParseError::EmptyLine),
            line@.len() > 0 && !opens_instruction(line@[0]) ==> r == Err::<Command, ParseError>(
                ParseError::InvalidCommand(line@[0]),
            ),
    {
        let chars = chars_of(line);
        assert(chars@.subrange(0, chars@.len() as int) =~= line@);
        parse_span(&chars, 0, chars.len())
    }
}

} // verus!

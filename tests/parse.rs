use turtle_parser::{parse_lines, Command, Direction, NumberError, ParseError};

fn draw(direction: Direction, centimeters: u32) -> Command {
    Command::Draw {
        direction,
        centimeters,
    }
}

#[test]
fn parse_stuff() -> Result<(), ParseError> {
    let program = "P 2  # select pen 2
D    # pen down
W 2  # draw west 2cm
N 1  # then north 1
E 2  # then east 2
S 1  # then back south
U    # pen up";

    assert_eq!(
        parse_lines(program)?,
        [
            Command::SelectPen(2),
            Command::PenDown,
            Command::Draw {
                direction: Direction::West,
                centimeters: 2
            },
            Command::Draw {
                direction: Direction::North,
                centimeters: 1
            },
            Command::Draw {
                direction: Direction::East,
                centimeters: 2
            },
            Command::Draw {
                direction: Direction::South,
                centimeters: 1
            },
            Command::PenUp
        ]
    );

    Ok(())
}

#[test]
fn direction_letters_decode() {
    assert_eq!(Direction::try_from('W'), Ok(Direction::West));
    assert_eq!(Direction::try_from('N'), Ok(Direction::North));
    assert_eq!(Direction::try_from('E'), Ok(Direction::East));
    assert_eq!(Direction::try_from('S'), Ok(Direction::South));
}

#[test]
fn direction_rejects_other_chars() {
    for c in ['w', 'n', 'X', 'D', 'P', ' ', '0', '\u{e9}'] {
        assert_eq!(Direction::try_from(c), Err(ParseError::InvalidDirection(c)));
    }
}

#[test]
fn unknown_leading_char_is_invalid_command() {
    for line in ["X 5", "d", "u", "p 3", "w 2", "# comment", "1", "\u{e9}t\u{e9}"] {
        let first = line.chars().next().unwrap();
        assert_eq!(Command::try_from(line), Err(ParseError::InvalidCommand(first)));
    }
}

#[test]
fn leading_whitespace_is_invalid_command() {
    assert_eq!(Command::try_from(" D"), Err(ParseError::InvalidCommand(' ')));
    assert_eq!(Command::try_from("\tW 2"), Err(ParseError::InvalidCommand('\t')));
}

#[test]
fn empty_line_is_rejected() {
    assert_eq!(Command::try_from(""), Err(ParseError::EmptyLine));
}

#[test]
fn generated_lines_parse_back() {
    let numbers = [0u32, 1, 9, 10, 42, 100, 65535, 4294967295];
    let comments = ["", " ", "  # a comment", "\tnote", " W 5"];
    let directions = [
        ('W', Direction::West),
        ('N', Direction::North),
        ('E', Direction::East),
        ('S', Direction::South),
    ];
    for comment in comments {
        assert_eq!(Command::try_from(format!("D{comment}").as_str()), Ok(Command::PenDown));
        assert_eq!(Command::try_from(format!("U{comment}").as_str()), Ok(Command::PenUp));
        for n in numbers {
            assert_eq!(
                Command::try_from(format!("P {n}{comment}").as_str()),
                Ok(Command::SelectPen(n))
            );
            for (letter, direction) in directions {
                assert_eq!(
                    Command::try_from(format!("{letter} {n}{comment}").as_str()),
                    Ok(draw(direction, n))
                );
            }
        }
    }
}

#[test]
fn pen_commands_ignore_the_rest_of_the_line() {
    assert_eq!(Command::try_from("Dxyz"), Ok(Command::PenDown));
    assert_eq!(Command::try_from("U 12 junk"), Ok(Command::PenUp));
}

#[test]
fn non_digit_in_number_fails() {
    let bad = ParseError::InvalidNumber(NumberError::InvalidDigit);
    assert_eq!(Command::try_from("W 2x"), Err(bad));
    assert_eq!(Command::try_from("P x2"), Err(bad));
    assert_eq!(Command::try_from("N -1"), Err(bad));
    assert_eq!(Command::try_from("E +5"), Err(bad));
    assert_eq!(Command::try_from("S 1.5 # half"), Err(bad));
}

#[test]
fn missing_number_fails() {
    let empty = ParseError::InvalidNumber(NumberError::Empty);
    assert_eq!(Command::try_from("W"), Err(empty));
    assert_eq!(Command::try_from("N "), Err(empty));
    assert_eq!(Command::try_from("E  5"), Err(empty));
    assert_eq!(Command::try_from("P"), Err(empty));
}

#[test]
fn number_out_of_range_fails() {
    let over = ParseError::InvalidNumber(NumberError::Overflow);
    assert_eq!(Command::try_from("P 4294967296"), Err(over));
    assert_eq!(Command::try_from("S 99999999999999999999"), Err(over));
    assert_eq!(Command::try_from("P 4294967295"), Ok(Command::SelectPen(u32::MAX)));
}

#[test]
fn number_reading_details() {
    assert_eq!(Command::try_from("P 007"), Ok(Command::SelectPen(7)));
    assert_eq!(Command::try_from("W 12\t3"), Ok(draw(Direction::West, 12)));
    assert_eq!(Command::try_from("N 7\u{3000}x"), Ok(draw(Direction::North, 7)));
    assert_eq!(Command::try_from("E 8\u{a0}"), Ok(draw(Direction::East, 8)));
    assert_eq!(Command::try_from("S\t9"), Ok(draw(Direction::South, 9)));
    assert_eq!(Command::try_from("W12"), Ok(draw(Direction::West, 2)));
}

#[test]
fn blank_line_fails_whole_program() {
    assert_eq!(parse_lines("D\n\nU"), Err(ParseError::EmptyLine));
    assert_eq!(parse_lines("\nD"), Err(ParseError::EmptyLine));
    assert_eq!(parse_lines("D\r\n\r\nU"), Err(ParseError::EmptyLine));
    assert_eq!(parse_lines("D\nU\n\n"), Err(ParseError::EmptyLine));
}

#[test]
fn first_error_wins() {
    assert_eq!(
        parse_lines("X 5\n\nD"),
        Err(ParseError::InvalidCommand('X'))
    );
    assert_eq!(
        parse_lines("D\nW 2x\nQ"),
        Err(ParseError::InvalidNumber(NumberError::InvalidDigit))
    );
}

#[test]
fn invalid_command_in_program() {
    assert_eq!(parse_lines("X 5"), Err(ParseError::InvalidCommand('X')));
}

#[test]
fn line_endings() {
    assert_eq!(parse_lines(""), Ok(vec![]));
    assert_eq!(parse_lines("D\n"), Ok(vec![Command::PenDown]));
    assert_eq!(
        parse_lines("P 3\r\nW 4\r\nU"),
        Ok(vec![Command::SelectPen(3), draw(Direction::West, 4), Command::PenUp])
    );
    assert_eq!(parse_lines("W 4\r"), Ok(vec![draw(Direction::West, 4)]));
    assert_eq!(parse_lines("P\r\n"), Err(ParseError::InvalidNumber(NumberError::Empty)));
}

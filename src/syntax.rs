use crate::command::{command_of, payload, Command};
use crate::direction::{direction_of, Direction};
use crate::number::{all_digits, digit_value, digits_value, is_digit, token, token_len};
use crate::text::is_space;
use vstd::prelude::*;

verus! {

/// The ASCII digit for a value below ten.
pub open spec fn digit_char(d: nat) -> char {
    ((d + 48) as u8) as char
}

/// The decimal notation of `n`, without leading zeros.
pub open spec fn decimal(n: nat) -> Seq<char>
    decreases n,
{
    if n < 10 {
        seq![digit_char(n)]
    } else {
        decimal(n / 10).push(digit_char(n % 10))
    }
}

proof fn lemma_digit_char(d: nat)
    requires
        d < 10,
    ensures
        is_digit(digit_char(d)),
        digit_value(digit_char(d)) == d,
{
}

proof fn lemma_decimal(n: nat)
    ensures
        decimal(n).len() > 0,
        all_digits(decimal(n)),
        digits_value(decimal(n)) == n,
    decreases n,
{
    lemma_digit_char(n % 10);
    vstd::arithmetic::div_mod::lemma_fundamental_div_mod(n as int, 10);
    if n < 10 {
        vstd::arithmetic::div_mod::lemma_small_mod(n, 10);
        assert(decimal(n).drop_last() =~= Seq::<char>::empty());
        assert(digits_value(Seq::<char>::empty()) == 0);
        assert(digits_value(decimal(n)) == digit_value(digit_char(n)));
    } else {
        lemma_decimal(n / 10);
        let t = decimal(n);
        assert(t.drop_last() =~= decimal(n / 10));
        assert(t.last() == digit_char(n % 10));
        assert(digits_value(t) == digits_value(decimal(n / 10)) * 10 + digit_value(
            digit_char(n % 10),
        ));
        assert((n / 10) * 10 + n % 10 == n);
    }
}

proof fn lemma_token_of_digits(t: Seq<char>, rest: Seq<char>)
    requires
        all_digits(t),
        rest.len() == 0 || is_space(rest[0]),
    ensures
        token_len(t + rest) == t.len(),
        token(t + rest) == t,
    decreases t.len(),
{
    if t.len() == 0 {
        assert(t + rest =~= rest);
    } else {
        assert(is_digit(t[0]));
        assert((t + rest).drop_first() =~= t.drop_first() + rest);
        lemma_token_of_digits(t.drop_first(), rest);
    }
    assert((t + rest).take(t.len() as int) =~= t);
}

/// The letter that names a direction.
pub open spec fn letter(d: Direction) -> char {
    match d {
        Direction::West => 'W',
        Direction::North => 'N',
        Direction::East => 'E',
        Direction::South => 'S',
    }
}

/// The canonical text of a command: its letter, and for `P` and the
/// directions a space and the number in decimal.
pub open spec fn line_for(c: Command) -> Seq<char> {
    match c {
        Command::SelectPen(n) => seq!['P', ' '] + decimal(n as nat),
        Command::PenDown => seq!['D'],
        Command::PenUp => seq!['U'],
        Command::Draw { direction, centimeters } => seq![letter(direction), ' '] + decimal(
            centimeters as nat,
        ),
    }
}

/// Every command, written out in its canonical text and followed by nothing
/// or by a comment that starts with whitespace, parses back to itself.
pub proof fn lemma_line_for_parses(c: Command, comment: Seq<char>)
    requires
        comment.len() == 0 || is_space(comment[0]),
    ensures
        command_of(line_for(c) + comment) == Ok::<Command, crate::error::ParseError>(c),
{
    let l = line_for(c) + comment;
    match c {
        Command::SelectPen(n) => {
            lemma_decimal(n as nat);
            assert(payload(l) =~= decimal(n as nat) + comment);
            lemma_token_of_digits(decimal(n as nat), comment);
        },
        Command::Draw { direction, centimeters } => {
            lemma_decimal(centimeters as nat);
            assert(payload(l) =~= decimal(centimeters as nat) + comment);
            lemma_token_of_digits(decimal(centimeters as nat), comment);
            assert(direction_of(letter(direction)) == Some(direction));
        },
        _ => {},
    }
}

} // verus!

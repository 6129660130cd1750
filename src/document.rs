use crate::command::{command_of, parse_span, Command};
use crate::error::ParseError;
use crate::text::chars_of;
use vstd::prelude::*;

verus! {

/// Index of the first line feed in `s`, or `s.len()` if it holds none.
pub open spec fn line_break(s: Seq<char>) -> nat
    decreases s.len(),
{
    if s.len() == 0 || s[0] == '\n' {
        0
    } else {
        1 + line_break(s.drop_first())
    }
}

/// A line that was ended by `"\r\n"` loses its carriage return.
pub open spec fn strip_cr(l: Seq<char>) -> Seq<char> {
    if l.len() > 0 && l.last() == '\r' {
        l.drop_last()
    } else {
        l
    }
}

/// The lines of a text, as `str::lines` gives them: split at each `'\n'`,
/// with a `'\r'` just before it removed; the last line needs no terminator,
/// and a final terminator starts no empty line.
pub open spec fn lines_of(s: Seq<char>) -> Seq<Seq<char>>
    decreases s.len(),
{
    if s.len() == 0 {
        Seq::empty()
    } else {
        let k = line_break(s);
        if k >= s.len() {
            seq![s]
        } else {
            seq![strip_cr(s.take(k as int))] + lines_of(s.skip((k + 1) as int))
        }
    }
}

/// Puts `p` in front of the commands of a successful outcome.
pub open spec fn prepend(p: Seq<Command>, r: Result<Seq<Command>, ParseError>) -> Result<
    Seq<Command>,
    ParseError,
> {
    match r {
        Ok(v) => Ok(p + v),
        Err(e) => Err(e),
    }
}

/// Parses lines in order: the commands of all of them, or the error of the
/// first line that fails.
pub open spec fn commands_of(ls: Seq<Seq<char>>) -> Result<Seq<Command>, ParseError>
    decreases ls.len(),
{
    if ls.len() == 0 {
        Ok(Seq::empty())
    } else {
        match command_of(ls[0]) {
            Ok(c) => prepend(seq![c], commands_of(ls.drop_first())),
            Err(e) => Err(e),
        }
    }
}

/// The outcome of parsing a whole program text.
pub open spec fn program_of(s: Seq<char>) -> Result<Seq<Command>, ParseError> {
    commands_of(lines_of(s))
}

proof fn lemma_prepend_twice(p: Seq<Command>, q: Seq<Command>, r: Result<Seq<Command>, ParseError>)
    ensures
        prepend(p, prepend(q, r)) == prepend(p + q, r),
{
    if let Ok(v) = r {
        assert(p + (q + v) =~= (p + q) + v);
    }
}

proof fn lemma_first_failure(ls: Seq<Seq<char>>, j: int)
    requires
        0 <= j < ls.len(),
        command_of(ls[j]) is Err,
        forall|i: int| 0 <= i < j ==> command_of(#[trigger] ls[i]) is Ok,
    ensures
        commands_of(ls) == Err::<Seq<Command>, ParseError>(command_of(ls[j])->Err_0),
    decreases j,
{
    if j > 0 {
        assert(command_of(ls[0]) is Ok);
        let rest = ls.drop_first();
        assert forall|i: int| 0 <= i < j - 1 implies command_of(#[trigger] rest[i]) is Ok by {
            assert(rest[i] == ls[i + 1]);
        }
        lemma_first_failure(rest, j - 1);
    }
}

/// A blank line makes the whole program fail with `EmptyLine`, provided that
/// no line before it has failed already.
pub proof fn lemma_blank_line_fails(s: Seq<char>, j: int)
    requires
        0 <= j < lines_of(s).len(),
        lines_of(s)[j].len() == 0,
        forall|i: int| 0 <= i < j ==> command_of(#[trigger] lines_of(s)[i]) is Ok,
    ensures
        program_of(s) == Err::<Seq<Command>, ParseError>(ParseError::EmptyLine),
{
    lemma_first_failure(lines_of(s), j);
}

/// Parses a whole program, one command per line, in order. The first line
/// that fails to parse makes the whole parse fail with its error; a blank
/// line is such a line.
pub fn parse_lines(lines: &str) -> (r: Result<Vec<Command>, ParseError>)
    ensures
        match r {
            Ok(v) => program_of(lines@) == Ok::<Seq<Command>, ParseError>(v@),
            Err(e) => program_of(lines@) == Err::<Seq<Command>, ParseError>(e),
        },
{
    let chars = chars_of(lines);
    let ghost s = chars@;
    let n = chars.len();
    let mut out: Vec<Command> = Vec::new();
    let mut start: usize = 0;
    let mut i: usize = 0;
    assert(s.skip(0) =~= s);
    assert(prepend(Seq::empty(), program_of(s)) == program_of(s)) by {
        if let Ok(v) = program_of(s) {
            assert(Seq::<Command>::empty() + v =~= v);
        }
    }
    while i < n
        invariant
            s == chars@,
            s == lines@,
            n == s.len(),
            start <= i <= n,
            program_of(s) == prepend(out@, commands_of(lines_of(s.skip(start as int)))),
            line_break(s.skip(start as int)) == (i - start) + line_break(s.skip(i as int)),
        decreases n - i,
    {
        let ghost rest = s.skip(start as int);
        if chars[i] == '\n' {
            assert(line_break(s.skip(i as int)) == 0);
            assert(rest.skip(i - start + 1) =~= s.skip(i + 1));
            let stop: usize = if i > start && chars[i - 1] == '\r' {
                i - 1
            } else {
                i
            };
            assert(chars@.subrange(start as int, stop as int) =~= strip_cr(
                rest.take(i - start),
            ));
            assert(lines_of(rest) == seq![strip_cr(rest.take(i - start))] + lines_of(
                s.skip(i + 1),
            ));
            let ghost ls = lines_of(rest);
            assert(ls.drop_first() =~= lines_of(s.skip(i + 1)));
            match parse_span(&chars, start, stop) {
                Ok(c) => {
                    proof {
                        assert(ls[0] == chars@.subrange(start as int, stop as int));
                        lemma_prepend_twice(out@, seq![c], commands_of(ls.drop_first()));
                        assert(out@ + seq![c] =~= out@.push(c));
                    }
                    out.push(c);
                },
                Err(e) => {
                    return Err(e);
                },
            }
            start = i + 1;
        } else {
            assert(s.skip(i as int).drop_first() =~= s.skip(i + 1));
        }
        i = i + 1;
    }
    let ghost rest = s.skip(start as int);
    assert(s.skip(n as int).len() == 0);
    if start < n {
        assert(line_break(rest) == rest.len());
        assert(lines_of(rest) == seq![rest]);
        assert(chars@.subrange(start as int, n as int) =~= rest);
        let ghost ls = lines_of(rest);
        assert(ls.drop_first() =~= Seq::<Seq<char>>::empty());
        match parse_span(&chars, start, n) {
            Ok(c) => {
                assert(commands_of(ls) == prepend(seq![c], commands_of(ls.drop_first())));
                assert(out@ + (seq![c] + Seq::<Command>::empty()) =~= out@.push(c));
                out.push(c);
            },
            Err(e) => {
                return Err(e);
            },
        }
    } else {
        assert(rest.len() == 0);
        assert(out@ + Seq::<Command>::empty() =~= out@);
    }
    Ok(out)
}

} // verus!

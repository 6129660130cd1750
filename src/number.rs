use crate::error::NumberError;
use crate::text::{is_space, is_space_char};
use vstd::prelude::*;

verus! {

/// Length of the maximal prefix of `s` that holds no whitespace.
pub open spec fn token_len(s: Seq<char>) -> nat
    decreases s.len(),
{
    if s.len() == 0 || is_space(s[0]) {
        0
    } else {
        1 + token_len(s.drop_first())
    }
}

/// The numeric token at the start of `s`: everything up to the first
/// whitespace character, or all of `s` if it holds none.
pub open spec fn token(s: Seq<char>) -> Seq<char> {
    s.take(token_len(s) as int)
}

pub open spec fn is_digit(c: char) -> bool {
    '0' as u32 <= c as u32 <= '9' as u32
}

pub open spec fn digit_value(c: char) -> nat {
    (c as u32 - '0' as u32) as nat
}

pub open spec fn all_digits(t: Seq<char>) -> bool {
    forall|i: int| 0 <= i < t.len() ==> is_digit(#[trigger] t[i])
}

/// The value of a run of decimal digits, most significant first.
pub open spec fn digits_value(t: Seq<char>) -> nat
    decreases t.len(),
{
    if t.len() == 0 {
        0
    } else {
        digits_value(t.drop_last()) * 10 + digit_value(t.last())
    }
}

/// The outcome of reading a token as a `u32`: it must be a non-empty run of
/// ASCII digits whose value fits.
pub open spec fn number_of(t: Seq<char>) -> Result<u32, NumberError> {
    if t.len() == 0 {
        Err(NumberError::Empty)
    } else if !all_digits(t) {
        Err(NumberError::InvalidDigit)
    } else if digits_value(t) > u32::MAX {
        Err(NumberError::Overflow)
    } else {
        Ok(digits_value(t) as u32)
    }
}

proof fn lemma_digits_value_grows(t: Seq<char>, k: int)
    requires
        0 <= k <= t.len(),
    ensures
        digits_value(t.take(k)) <= digits_value(t),
    decreases t.len() - k,
{
    if k < t.len() {
        lemma_digits_value_grows(t, k + 1);
        assert(t.take(k + 1).drop_last() =~= t.take(k));
    } else {
        assert(t.take(k) =~= t);
    }
}

/// Finds where the token that starts at `start` ends, looking no further
/// than `end`: the index of the first whitespace character in
/// `chars[start..end]`, or `end`.
pub fn token_end(chars: &Vec<char>, start: usize, end: usize) -> (r: usize)
    requires
        start <= end <= chars.len(),
    ensures
        start <= r <= end,
        chars@.subrange(start as int, r as int) == token(chars@.subrange(start as int, end as int)),
{
    let ghost s = chars@.subrange(start as int, end as int);
    let mut i: usize = start;
    while i < end && !is_space_char(chars[i])
        invariant
            start <= i <= end <= chars.len(),
            token_len(s) == (i - start) + token_len(chars@.subrange(i as int, end as int)),
        decreases end - i,
    {
        assert(chars@.subrange(i as int, end as int).drop_first() =~= chars@.subrange(
            i + 1,
            end as int,
        ));
        i = i + 1;
    }
    assert(token_len(chars@.subrange(i as int, end as int)) == 0);
    assert(chars@.subrange(start as int, i as int) =~= token(s));
    i
}

/// Reads `chars[start..end]` as a `u32`.
pub fn read_number(chars: &Vec<char>, start: usize, end: usize) -> (r: Result<u32, NumberError>)
    requires
        start <= end <= chars.len(),
    ensures
        r == number_of(chars@.subrange(start as int, end as int)),
{
    let ghost t = chars@.subrange(start as int, end as int);
    if start == end {
        return Err(NumberError::Empty);
    }
    let mut i: usize = start;
    while i < end
        invariant
            start <= i <= end <= chars.len(),
            t == chars@.subrange(start as int, end as int),
            forall|j: int| 0 <= j < i - start ==> is_digit(#[trigger] t[j]),
        decreases end - i,
    {
        let u: u32 = chars[i] as u32;
        if !(48 <= u && u <= 57) {
            assert(t[i - start] == chars@[i as int]);
            return Err(NumberError::InvalidDigit);
        }
        i = i + 1;
    }
    assert(all_digits(t));
    let mut value: u64 = 0;
    let mut i: usize = start;
    while i < end
        invariant
            start <= i <= end <= chars.len(),
            t == chars@.subrange(start as int, end as int),
            all_digits(t),
            value == digits_value(t.take(i - start)),
            value <= u32::MAX,
        decreases end - i,
    {
        let u: u32 = chars[i] as u32;
        assert(is_digit(t[i - start]));
        assert(t.take(i + 1 - start).drop_last() =~= t.take(i - start));
        let d: u64 = (u - 48) as u64;
        value = value * 10 + d;
        i = i + 1;
        if value > u32::MAX as u64 {
            proof {
                lemma_digits_value_grows(t, i - start);
                assert(t.take(t.len() as int) =~= t);
            }
            return Err(NumberError::Overflow);
        }
    }
    assert(t.take(t.len() as int) =~= t);
    Ok(value as u32)
}

} // verus!

//! Numbers on the command line.

use vstd::prelude::*;
use vstd::string::*;

use crate::text;
use crate::text::chars_of;

verus! {

/// Why a text is no number.
#[derive(Debug, Clone, Copy, PartialEq, Eq, Structural)]
pub enum NumberError {
    Empty,
    InvalidDigit,
    TooLarge,
}

/// What is said of a text that is no number.
pub open spec fn complaint(error: NumberError) -> Seq<char> {
    match error {
        NumberError::Empty => "cannot parse integer from empty string"@,
        NumberError::InvalidDigit => "invalid digit found in string"@,
        NumberError::TooLarge => "number too large to fit in target type"@,
    }
}

impl NumberError {
    /// What is said of a text that is no number.
    pub fn message(self) -> (message: &'static str)
        ensures
            message@ == complaint(self),
    {
        match self {
            NumberError::Empty => "cannot parse integer from empty string",
            NumberError::InvalidDigit => "invalid digit found in string",
            NumberError::TooLarge => "number too large to fit in target type",
        }
    }
}

/// Whether a character is a decimal digit.
pub open spec fn is_digit(c: char) -> bool {
    '0' <= c <= '9'
}

/// The number that some digits stand for. The first character that is no digit, or makes
/// the number too large, decides what is wrong.
pub open spec fn digits_value(digits: Seq<char>, max: nat) -> Result<nat, NumberError>
    decreases digits.len(),
{
    if digits.len() == 0 {
        Ok(0)
    } else {
        match digits_value(digits.drop_last(), max) {
            Err(error) => Err(error),
            Ok(n) => if !is_digit(digits.last()) {
                Err(NumberError::InvalidDigit)
            } else if n * 10 + (digits.last() as u32 - '0' as u32) > max {
                Err(NumberError::TooLarge)
            } else {
                Ok((n * 10 + (digits.last() as u32 - '0' as u32)) as nat)
            },
        }
    }
}

/// The number, of no more than `max`, that a text stands for: some digits, behind a plus
/// sign or not.
pub open spec fn number(s: Seq<char>, max: nat) -> Result<nat, NumberError> {
    if s.len() == 0 {
        Err(NumberError::Empty)
    } else if s.len() == 1 && (s[0] == '+' || s[0] == '-') {
        Err(NumberError::InvalidDigit)
    } else if s[0] == '+' {
        digits_value(s.skip(1), max)
    } else {
        digits_value(s, max)
    }
}

/// What is wrong with the first part of some digits is wrong with the whole.
proof fn faults_stay(digits: Seq<char>, max: nat, n: int)
    requires
        0 <= n <= digits.len(),
        digits_value(digits.take(n), max) is Err,
    ensures
        digits_value(digits, max) == digits_value(digits.take(n), max),
    decreases digits.len() - n,
{
    if n < digits.len() {
        assert(digits.take(n + 1).drop_last() =~= digits.take(n));
        faults_stay(digits, max, n + 1);
    } else {
        assert(digits.take(n) =~= digits);
    }
}

/// The number, of no more than `max`, that a text stands for.
pub fn parse_number(s: &str, max: u64) -> (parsed: Result<u64, NumberError>)
    ensures
        match (parsed, number(s@, max as nat)) {
            (Ok(n), Ok(value)) => n == value && n <= max,
            (Err(error), Err(fault)) => error == fault,
            _ => false,
        },
{
    let chars = chars_of(s);
    if chars.len() == 0 {
        return Err(NumberError::Empty);
    }
    if chars.len() == 1 && (chars[0] == '+' || chars[0] == '-') {
        return Err(NumberError::InvalidDigit);
    }
    let start: usize = if chars[0] == '+' {
        1
    } else {
        0
    };
    let ghost digits = s@.skip(start as int);
    assert(s@.skip(0) =~= s@);
    let mut value: u64 = 0;
    let mut i: usize = start;
    assert(digits.take(0) =~= Seq::empty());
    while i < chars.len()
        invariant
            start <= i <= chars@.len(),
            chars@ == s@,
            digits == s@.skip(start as int),
            digits_value(digits, max as nat) == number(s@, max as nat),
            digits_value(digits.take(i - start), max as nat) == Ok::<nat, NumberError>(
                value as nat,
            ),
            value <= max,
        decreases chars@.len() - i,
    {
        let c: char = chars[i];
        let ghost next = digits.take(i + 1 - start);
        proof {
            assert(next.drop_last() =~= digits.take(i - start));
            assert(next.last() == c);
            if digits_value(next, max as nat) is Err {
                faults_stay(digits, max as nat, i + 1 - start);
            }
        }
        if c < '0' || c > '9' {
            return Err(NumberError::InvalidDigit);
        }
        let d: u64 = c as u64 - 48;
        if d > max || value > max / 10 || value * 10 > max - d {
            return Err(NumberError::TooLarge);
        }
        value = value * 10 + d;
        i += 1;
    }
    assert(digits.take(i - start) =~= digits);
    Ok(value)
}

/// A number is read back from its decimal notation.
pub proof fn numbers_survive_decimal(n: nat, max: nat)
    requires
        n <= max,
    ensures
        number(text::decimal(n), max) == Ok::<nat, NumberError>(n),
{
    digits_survive_decimal(n, max);
    decimal_is_digits(n);
}

/// A number's digits stand for it.
proof fn digits_survive_decimal(n: nat, max: nat)
    requires
        n <= max,
    ensures
        digits_value(text::decimal(n), max) == Ok::<nat, NumberError>(n),
    decreases n,
{
    let digits = text::decimal(n);
    if n < 10 {
        assert(digits.drop_last() =~= Seq::empty());
        assert(digits_value(digits.drop_last(), max) == Ok::<nat, NumberError>(0));
    } else {
        digits_survive_decimal(n / 10, max);
        assert(digits.drop_last() =~= text::decimal(n / 10));
    }
}

/// The decimal notation begins with a digit.
proof fn decimal_is_digits(n: nat)
    ensures
        text::decimal(n).len() > 0,
        is_digit(text::decimal(n)[0]),
    decreases n,
{
    if n >= 10 {
        decimal_is_digits(n / 10);
    }
}

} // verus!

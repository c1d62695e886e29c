//! Numeric literals: a prefix character that selects the radix, then an
//! unsigned 16-bit number in that radix.

use vstd::prelude::*;
use crate::error::{failure, AssemblerError, ErrorKind, ErrorModel};
use crate::text::chars_of;

verus! {

/// The value of a digit character: `0` to `9`, then the letters of either
/// case from 10 on.
pub open spec fn digit_value(c: char) -> Option<nat> {
    let n = c as u32;
    if 0x30 <= n <= 0x39 {
        Some((n - 0x30) as nat)
    } else if 0x61 <= n <= 0x7A {
        Some((n - 0x61 + 10) as nat)
    } else if 0x41 <= n <= 0x5A {
        Some((n - 0x41 + 10) as nat)
    } else {
        None
    }
}

/// The number that the digits `s` stand for in `radix`, if each is a digit
/// of that radix. The empty text stands for 0.
pub open spec fn digits_value(s: Seq<char>, radix: nat) -> Option<nat>
    decreases s.len(),
{
    if s.len() == 0 {
        Some(0)
    } else {
        match (digits_value(s.drop_last(), radix), digit_value(s.last())) {
            (Some(high), Some(d)) => if d < radix {
                Some(high * radix + d)
            } else {
                None
            },
            _ => None,
        }
    }
}

/// An unsigned 16-bit number written in `radix`: an optional `+`, then at
/// least one digit, the whole no greater than 65535.
pub open spec fn parse_unsigned(s: Seq<char>, radix: nat) -> Option<u16> {
    let digits = if s.len() > 0 && s[0] == '+' {
        s.drop_first()
    } else {
        s
    };
    if digits.len() == 0 {
        None
    } else {
        match digits_value(digits, radix) {
            Some(v) => if v <= 0xFFFF {
                Some(v as u16)
            } else {
                None
            },
            None => None,
        }
    }
}

/// A numeric literal. The first character selects the radix: `b` binary, `#`
/// decimal, `x` hexadecimal. Where the rest is no number of that radix, the
/// error of that radix carries the rest; where the first character is none
/// of the three, the general error carries the whole text.
pub open spec fn numeric_value(s: Seq<char>) -> Result<u16, ErrorModel> {
    if s.len() == 0 {
        Err(failure(ErrorKind::InvalidNumber, s))
    } else if s[0] == 'b' {
        match parse_unsigned(s.drop_first(), 2) {
            Some(v) => Ok(v),
            None => Err(failure(ErrorKind::InvalidBinary, s.drop_first())),
        }
    } else if s[0] == '#' {
        match parse_unsigned(s.drop_first(), 10) {
            Some(v) => Ok(v),
            None => Err(failure(ErrorKind::InvalidDecimal, s.drop_first())),
        }
    } else if s[0] == 'x' {
        match parse_unsigned(s.drop_first(), 16) {
            Some(v) => Ok(v),
            None => Err(failure(ErrorKind::InvalidHex, s.drop_first())),
        }
    } else {
        Err(failure(ErrorKind::InvalidNumber, s))
    }
}

/// A result with its error seen as its model.
pub open spec fn word_result(r: Result<u16, AssemblerError>) -> Result<u16, ErrorModel> {
    match r {
        Ok(v) => Ok(v),
        Err(e) => Err(e@),
    }
}

/// The digits of a numeral's start stand for no more than the whole numeral.
proof fn lemma_digits_prefix(s: Seq<char>, k: int, radix: nat)
    requires
        0 <= k <= s.len(),
        digits_value(s, radix) is Some,
    ensures
        digits_value(s.subrange(0, k), radix) is Some,
        digits_value(s.subrange(0, k), radix)->0 <= digits_value(s, radix)->0,
    decreases s.len(),
{
    if k == s.len() {
        assert(s.subrange(0, k) =~= s);
    } else {
        let high = digits_value(s.drop_last(), radix)->0;
        let d = digit_value(s.last())->0;
        assert(high * radix + d >= high) by (nonlinear_arith)
            requires
                radix > d,
        ;
        assert(s.subrange(0, k) =~= s.drop_last().subrange(0, k));
        lemma_digits_prefix(s.drop_last(), k, radix);
    }
}

fn digit_of(c: char) -> (d: Option<u32>)
    ensures
        match d {
            Some(v) => digit_value(c) == Some(v as nat) && v < 36,
            None => digit_value(c) is None,
        },
{
    let n: u32 = c as u32;
    if 0x30 <= n && n <= 0x39 {
        Some(n - 0x30)
    } else if 0x61 <= n && n <= 0x7A {
        Some(n - 0x61 + 10)
    } else if 0x41 <= n && n <= 0x5A {
        Some(n - 0x41 + 10)
    } else {
        None
    }
}

/// Reads an unsigned 16-bit number written in `radix`.
pub fn parse_u16(s: &Vec<char>, radix: u32) -> (value: Option<u16>)
    requires
        2 <= radix <= 36,
    ensures
        value == parse_unsigned(s@, radix as nat),
{
    let start: usize = if s.len() > 0 && s[0] == '+' {
        1
    } else {
        0
    };
    let ghost digits = s@.subrange(start as int, s@.len() as int);
    assert(digits =~= if s@.len() > 0 && s@[0] == '+' {
        s@.drop_first()
    } else {
        s@
    });
    if start == s.len() {
        return None;
    }
    let mut acc: u32 = 0;
    let mut i: usize = start;
    while i < s.len()
        invariant
            start <= i <= s@.len(),
            2 <= radix <= 36,
            digits == s@.subrange(start as int, s@.len() as int),
            digits.len() > 0,
            digits == if s@.len() > 0 && s@[0] == '+' {
                s@.drop_first()
            } else {
                s@
            },
            digits_value(digits.subrange(0, i - start), radix as nat) == Some(acc as nat),
            acc <= 0xFFFF,
        decreases s@.len() - i,
    {
        let ghost before = digits.subrange(0, i - start);
        let ghost after = digits.subrange(0, i - start + 1);
        assert(after.drop_last() =~= before);
        assert(after.last() == s@[i as int]);
        let digit: Option<u32> = digit_of(s[i]);
        let d: u32 = match digit {
            Some(d) => d,
            None => {
                proof {
                    if digits_value(digits, radix as nat) is Some {
                        lemma_digits_prefix(digits, i - start + 1, radix as nat);
                    }
                }
                return None;
            },
        };
        if d >= radix {
            proof {
                if digits_value(digits, radix as nat) is Some {
                    lemma_digits_prefix(digits, i - start + 1, radix as nat);
                }
            }
            return None;
        }
        assert(acc * radix + d <= 0xFFFF * 36 + 36) by (nonlinear_arith)
            requires
                acc <= 0xFFFF,
                radix <= 36,
                d < 36,
        ;
        acc = acc * radix + d;
        if acc > 0xFFFF {
            proof {
                if digits_value(digits, radix as nat) is Some {
                    lemma_digits_prefix(digits, i - start + 1, radix as nat);
                }
            }
            return None;
        }
        i += 1;
    }
    assert(digits.subrange(0, i - start) =~= digits);
    Some(acc as u16)
}

/// The text after the first character.
fn rest_of(s: &Vec<char>) -> (rest: Vec<char>)
    requires
        s@.len() > 0,
    ensures
        rest@ == s@.drop_first(),
{
    let mut rest: Vec<char> = Vec::new();
    let mut i: usize = 1;
    while i < s.len()
        invariant
            1 <= i <= s@.len(),
            rest@ == s@.subrange(1, i as int),
        decreases s@.len() - i,
    {
        rest.push(s[i]);
        i += 1;
        assert(rest@ =~= s@.subrange(1, i as int));
    }
    assert(s@.subrange(1, i as int) =~= s@.drop_first());
    rest
}

/// Reads a numeric literal.
pub fn numeric_of(s: &Vec<char>) -> (r: Result<u16, AssemblerError>)
    ensures
        word_result(r) == numeric_value(s@),
{
    if s.len() == 0 {
        return Err(AssemblerError::of_chars(ErrorKind::InvalidNumber, s));
    }
    let first: char = s[0];
    if first == 'b' {
        let rest: Vec<char> = rest_of(s);
        match parse_u16(&rest, 2) {
            Some(v) => Ok(v),
            None => Err(AssemblerError::of_chars(ErrorKind::InvalidBinary, &rest)),
        }
    } else if first == '#' {
        let rest: Vec<char> = rest_of(s);
        match parse_u16(&rest, 10) {
            Some(v) => Ok(v),
            None => Err(AssemblerError::of_chars(ErrorKind::InvalidDecimal, &rest)),
        }
    } else if first == 'x' {
        let rest: Vec<char> = rest_of(s);
        match parse_u16(&rest, 16) {
            Some(v) => Ok(v),
            None => Err(AssemblerError::of_chars(ErrorKind::InvalidHex, &rest)),
        }
    } else {
        Err(AssemblerError::of_chars(ErrorKind::InvalidNumber, s))
    }
}

/// Reads a numeric literal: `b`, `#` or `x`, then a number in binary, decimal
/// or hexadecimal.
pub fn encode_numeric(s: &str) -> (r: Result<u16, AssemblerError>)
    ensures
        word_result(r) == numeric_value(s@),
{
    let chars: Vec<char> = chars_of(s);
    numeric_of(&chars)
}

} // verus!

//! Values of integer and character constants.

use vstd::prelude::*;
use crate::ast::{Literal, Base};
use crate::error::{CompileError, Fault};
use crate::text::concat;

verus! {

/// Why the digits of an integer literal do not denote an `i64`.
#[derive(Debug, Clone, Copy, PartialEq, Eq, Structural)]
pub enum IntErrorKind {
    Empty,
    InvalidDigit,
    PosOverflow,
    NegOverflow,
}

/// The radix of an integer base.
pub open spec fn radix_of(base: Base) -> nat {
    match base {
        Base::Decimal => 10,
        Base::Octal => 8,
        Base::Hexadecimal => 16,
        Base::Binary => 2,
    }
}

/// The value of `c` as a digit of the given radix (at most 36), if it is one:
/// `0`-`9`, then `a`-`z` or `A`-`Z` for 10 and up.
pub open spec fn digit_value(c: char, radix: nat) -> Option<nat> {
    let v: int = if '0' <= c && c <= '9' {
        c as int - '0' as int
    } else if 'a' <= c && c <= 'z' {
        c as int - 'a' as int + 10
    } else if 'A' <= c && c <= 'Z' {
        c as int - 'A' as int + 10
    } else {
        radix as int
    };
    if 0 <= v < radix {
        Some(v as nat)
    } else {
        None
    }
}

/// Reads `digits` left to right onto the accumulator `acc`, adding digits
/// (or subtracting them, for a negative number) and failing at the first
/// character that is no digit or the first step that leaves the `i64` range.
pub open spec fn accumulate_digits(digits: Seq<char>, radix: nat, acc: int, negative: bool) -> Result<
    int,
    IntErrorKind,
>
    decreases digits.len(),
{
    if digits.len() == 0 {
        Ok(acc)
    } else {
        match digit_value(digits[0], radix) {
            None => Err(IntErrorKind::InvalidDigit),
            Some(d) => {
                let next = if negative {
                    acc * radix - d
                } else {
                    acc * radix + d
                };
                if next > i64::MAX {
                    Err(IntErrorKind::PosOverflow)
                } else if next < i64::MIN {
                    Err(IntErrorKind::NegOverflow)
                } else {
                    accumulate_digits(digits.drop_first(), radix, next, negative)
                }
            },
        }
    }
}

/// The `i64` that a text denotes in the given radix: an optional sign
/// followed by one or more digits.
pub open spec fn parse_int_radix(s: Seq<char>, radix: nat) -> Result<int, IntErrorKind> {
    if s.len() == 0 {
        Err(IntErrorKind::Empty)
    } else {
        let negative = s[0] == '-';
        let digits = if s[0] == '+' || s[0] == '-' {
            s.drop_first()
        } else {
            s
        };
        if digits.len() == 0 {
            Err(IntErrorKind::InvalidDigit)
        } else {
            accumulate_digits(digits, radix, 0, negative)
        }
    }
}

/// How an integer-parsing failure is described.
pub open spec fn int_error_text(k: IntErrorKind) -> Seq<char> {
    match k {
        IntErrorKind::Empty => "cannot parse integer from empty string"@,
        IntErrorKind::InvalidDigit => "invalid digit found in string"@,
        IntErrorKind::PosOverflow => "number too large to fit in target type"@,
        IntErrorKind::NegOverflow => "number too small to fit in target type"@,
    }
}

/// `s` without its leading single quotes.
pub open spec fn strip_leading_quotes(s: Seq<char>) -> Seq<char>
    decreases s.len(),
{
    if s.len() > 0 && s[0] == '\'' {
        strip_leading_quotes(s.drop_first())
    } else {
        s
    }
}

/// `s` without its trailing single quotes.
pub open spec fn strip_trailing_quotes(s: Seq<char>) -> Seq<char>
    decreases s.len(),
{
    if s.len() > 0 && s.last() == '\'' {
        strip_trailing_quotes(s.drop_last())
    } else {
        s
    }
}

/// The character code that the two-character escape sequence `\\c` stands
/// for, where it is one of the escapes the compiler knows.
pub open spec fn escape_value(c: char) -> Option<int> {
    if c == 'n' {
        Some(10)
    } else if c == 'r' {
        Some(13)
    } else if c == 't' {
        Some(9)
    } else if c == '0' {
        Some(0)
    } else if c == '\\' {
        Some(92)
    } else if c == '\'' {
        Some(39)
    } else if c == '"' {
        Some(34)
    } else {
        None
    }
}

/// The value of a character literal written `text` (quotes included): its
/// text without surrounding quotes is either a known escape sequence, or
/// its first character (zero when empty).
pub open spec fn character_value(text: Seq<char>) -> Result<int, Fault> {
    let inner = strip_trailing_quotes(strip_leading_quotes(text));
    if inner.len() > 0 && inner[0] == '\\' {
        if inner.len() == 2 && escape_value(inner[1]) is Some {
            Ok(escape_value(inner[1])->0)
        } else {
            Err(Fault::Unsupported("escape sequence "@ + inner))
        }
    } else if inner.len() > 0 {
        Ok(inner[0] as int)
    } else {
        Ok(0)
    }
}

/// The value of a constant, or why it has none.
pub open spec fn constant_value(c: Literal) -> Result<int, Fault> {
    match c {
        Literal::Integer(base, digits) => match parse_int_radix(digits@, radix_of(base)) {
            Ok(v) => Ok(v),
            Err(k) => Err(Fault::Parse("bad integer literal: "@ + int_error_text(k))),
        },
        Literal::Character(text) => character_value(text@),
        Literal::Float => Err(Fault::Unsupported("floating-point constant"@)),
    }
}

fn radix_value(base: Base) -> (r: u32)
    ensures
        r == radix_of(base),
{
    match base {
        Base::Decimal => 10,
        Base::Octal => 8,
        Base::Hexadecimal => 16,
        Base::Binary => 2,
    }
}

fn digit_of(c: char, radix: u32) -> (r: Option<u32>)
    requires
        radix <= 36,
    ensures
        r matches Some(d) ==> digit_value(c, radix as nat) == Some(d as nat),
        r is None ==> digit_value(c, radix as nat) is None,
{
    let v: u32 = if '0' <= c && c <= '9' {
        (c as u32) - ('0' as u32)
    } else if 'a' <= c && c <= 'z' {
        (c as u32) - ('a' as u32) + 10
    } else if 'A' <= c && c <= 'Z' {
        (c as u32) - ('A' as u32) + 10
    } else {
        radix
    };
    if v < radix {
        Some(v)
    } else {
        None
    }
}

/// The `i64` that `s` denotes in the given radix, as `i64::from_str_radix` reads it.
pub fn parse_i64_radix(s: &str, radix: u32) -> (r: Result<i64, IntErrorKind>)
    requires
        2 <= radix <= 36,
    ensures
        match r {
            Ok(v) => parse_int_radix(s@, radix as nat) == Ok::<int, IntErrorKind>(v as int),
            Err(k) => parse_int_radix(s@, radix as nat) == Err::<int, IntErrorKind>(k),
        },
{
    let n = s.unicode_len();
    if n == 0 {
        return Err(IntErrorKind::Empty);
    }
    let first = s.get_char(0);
    let negative = first == '-';
    let start: usize = if first == '+' || first == '-' {
        1
    } else {
        0
    };
    let ghost digits = if first == '+' || first == '-' {
        s@.drop_first()
    } else {
        s@
    };
    assert(digits =~= s@.subrange(start as int, n as int));
    if start == n {
        return Err(IntErrorKind::InvalidDigit);
    }
    let mut acc: i64 = 0;
    let mut i: usize = start;
    while i < n
        invariant
            start <= i <= n,
            n == s@.len(),
            2 <= radix <= 36,
            digits == s@.subrange(start as int, n as int),
            parse_int_radix(s@, radix as nat) == accumulate_digits(digits, radix as nat, 0, negative),
            accumulate_digits(digits, radix as nat, 0, negative) == accumulate_digits(
                s@.subrange(i as int, n as int),
                radix as nat,
                acc as int,
                negative,
            ),
        decreases n - i,
    {
        let c = s.get_char(i);
        let ghost rest = s@.subrange(i as int, n as int);
        assert(rest[0] == c);
        assert(rest.len() > 0);
        assert(rest.drop_first() =~= s@.subrange(i + 1, n as int));
        match digit_of(c, radix) {
            None => {
                assert(accumulate_digits(rest, radix as nat, acc as int, negative) == Err::<
                    int,
                    IntErrorKind,
                >(IntErrorKind::InvalidDigit));
                return Err(IntErrorKind::InvalidDigit);
            },
            Some(d) => {
                assert(-36 * 0x8000_0000_0000_0000 <= (acc as int) * (radix as int) <= 36
                    * 0x8000_0000_0000_0000) by (nonlinear_arith)
                    requires
                        i64::MIN <= acc <= i64::MAX,
                        2 <= radix <= 36,
                ;
                let wide: i128 = if negative {
                    (acc as i128) * (radix as i128) - (d as i128)
                } else {
                    (acc as i128) * (radix as i128) + (d as i128)
                };
                if wide > i64::MAX as i128 {
                    return Err(IntErrorKind::PosOverflow);
                }
                if wide < i64::MIN as i128 {
                    return Err(IntErrorKind::NegOverflow);
                }
                acc = wide as i64;
            },
        }
        i = i + 1;
    }
    assert(s@.subrange(n as int, n as int).len() == 0);
    Ok(acc)
}

/// The description of an integer-parsing failure.
pub fn int_error_str(k: IntErrorKind) -> (r: &'static str)
    ensures
        r@ == int_error_text(k),
{
    match k {
        IntErrorKind::Empty => "cannot parse integer from empty string",
        IntErrorKind::InvalidDigit => "invalid digit found in string",
        IntErrorKind::PosOverflow => "number too large to fit in target type",
        IntErrorKind::NegOverflow => "number too small to fit in target type",
    }
}

fn strip_quotes(s: &str) -> (r: (usize, usize))
    ensures
        r.0 <= r.1 <= s@.len(),
        s@.subrange(r.0 as int, r.1 as int) == strip_trailing_quotes(strip_leading_quotes(s@)),
{
    let n = s.unicode_len();
    let mut lo: usize = 0;
    assert(s@.subrange(0, n as int) =~= s@);
    while lo < n && s.get_char(lo) == '\''
        invariant
            lo <= n,
            n == s@.len(),
            strip_leading_quotes(s@) == strip_leading_quotes(s@.subrange(lo as int, n as int)),
        decreases n - lo,
    {
        assert(s@.subrange(lo as int, n as int).drop_first() =~= s@.subrange(lo + 1, n as int));
        lo = lo + 1;
    }
    assert(strip_leading_quotes(s@) == s@.subrange(lo as int, n as int));
    let mut hi: usize = n;
    while hi > lo && s.get_char(hi - 1) == '\''
        invariant
            lo <= hi <= n,
            n == s@.len(),
            strip_trailing_quotes(s@.subrange(lo as int, n as int)) == strip_trailing_quotes(
                s@.subrange(lo as int, hi as int),
            ),
        decreases hi - lo,
    {
        assert(s@.subrange(lo as int, hi as int).drop_last() =~= s@.subrange(
            lo as int,
            hi - 1,
        ));
        hi = hi - 1;
    }
    (lo, hi)
}

fn escape_code(c: char) -> (r: Option<i64>)
    ensures
        r matches Some(v) ==> escape_value(c) == Some(v as int),
        r is None ==> escape_value(c) is None,
{
    if c == 'n' {
        Some(10)
    } else if c == 'r' {
        Some(13)
    } else if c == 't' {
        Some(9)
    } else if c == '0' {
        Some(0)
    } else if c == '\\' {
        Some(92)
    } else if c == '\'' {
        Some(39)
    } else if c == '"' {
        Some(34)
    } else {
        None
    }
}

/// The value of a character literal written `text` (quotes included).
pub fn character_literal_value(text: &str) -> (r: Result<i64, CompileError>)
    ensures
        match r {
            Ok(v) => character_value(text@) == Ok::<int, Fault>(v as int),
            Err(e) => character_value(text@) == Err::<int, Fault>(e@),
        },
{
    let (lo, hi) = strip_quotes(text);
    let inner = text.substring_char(lo, hi);
    let len = hi - lo;
    if len > 0 && inner.get_char(0) == '\\' {
        if len == 2 {
            match escape_code(inner.get_char(1)) {
                Some(v) => {
                    return Ok(v);
                },
                None => {},
            }
        }
        Err(CompileError::Unsupported(concat("escape sequence ", inner)))
    } else if len > 0 {
        Ok(inner.get_char(0) as u32 as i64)
    } else {
        Ok(0)
    }
}

/// The value of a constant, or why it has none.
pub fn parse_constant(c: &Literal) -> (r: Result<i64, CompileError>)
    ensures
        match r {
            Ok(v) => constant_value(*c) == Ok::<int, Fault>(v as int),
            Err(e) => constant_value(*c) == Err::<int, Fault>(e@),
        },
{
    match c {
        Literal::Integer(base, digits) => {
            match parse_i64_radix(digits.as_str(), radix_value(*base)) {
                Ok(v) => Ok(v),
                Err(k) => Err(CompileError::Parse(concat("bad integer literal: ", int_error_str(k)))),
            }
        },
        Literal::Character(text) => character_literal_value(text.as_str()),
        Literal::Float => Err(CompileError::Unsupported(String::from_str("floating-point constant"))),
    }
}

} // verus!

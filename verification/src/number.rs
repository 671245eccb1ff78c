//! Decimal integers written as text.
//!
//! A number is an optional sign followed by at least one decimal digit and
//! nothing else; `-` is a sign only where the type has negative values. The
//! text is read from left to right, and the first character that cannot be
//! taken decides the cause of a refusal.

use crate::error::ParseCause;
use crate::text::chars_of;
use vstd::prelude::*;

verus! {

/// Whether `c` is one of `0` to `9`.
pub open spec fn is_digit(c: char) -> bool {
    '0' <= c <= '9'
}

/// The number that the digit `c` stands for.
pub open spec fn digit_value(c: char) -> int {
    c as int - '0' as int
}

/// The number that a sequence of digits stands for in base ten.
pub open spec fn digits_value(s: Seq<char>) -> int
    decreases s.len(),
{
    if s.len() == 0 {
        0
    } else {
        digits_value(s.drop_last()) * 10 + digit_value(s.last())
    }
}

/// The number that the first `n` digits of `body` stand for, with its sign.
pub open spec fn prefix_value(body: Seq<char>, negative: bool, n: int) -> int {
    if negative {
        -digits_value(body.take(n))
    } else {
        digits_value(body.take(n))
    }
}

/// Reads the digits of `body` from position `at` on. The first character
/// that is no digit, or that takes the number out of `lo ..= hi`, ends
/// the reading with its cause; a character that is both is no digit.
pub open spec fn scan(body: Seq<char>, negative: bool, lo: int, hi: int, at: int) -> Result<
    int,
    ParseCause,
>
    decreases body.len() - at,
{
    if at < 0 || at >= body.len() {
        Ok(prefix_value(body, negative, body.len() as int))
    } else if !is_digit(body[at]) {
        Err(ParseCause::InvalidDigit)
    } else if !(lo <= prefix_value(body, negative, at + 1) <= hi) {
        Err(
            if negative {
                ParseCause::NegOverflow
            } else {
                ParseCause::PosOverflow
            },
        )
    } else {
        scan(body, negative, lo, hi, at + 1)
    }
}

/// Whether `raw` begins with a sign: `+`, or `-` where `signed`.
pub open spec fn has_sign(raw: Seq<char>, signed: bool) -> bool {
    raw.len() > 0 && (raw[0] == '+' || (signed && raw[0] == '-'))
}

/// What `raw` means as an integer of a type with the values `lo ..= hi`,
/// `signed` where the type has negative ones.
pub open spec fn int_parsed(raw: Seq<char>, signed: bool, lo: int, hi: int) -> Result<
    int,
    ParseCause,
> {
    if raw.len() == 0 {
        Err(ParseCause::Empty)
    } else if has_sign(raw, signed) {
        if raw.len() == 1 {
            Err(ParseCause::InvalidDigit)
        } else {
            scan(raw.skip(1), raw[0] == '-', lo, hi, 0)
        }
    } else {
        scan(raw, false, lo, hi, 0)
    }
}

/// A reading that goes through ends on a number within the bounds.
pub proof fn lemma_scan_in_range(body: Seq<char>, negative: bool, lo: int, hi: int, at: int)
    requires
        0 <= at <= body.len(),
        body.len() > 0,
        at > 0 ==> lo <= prefix_value(body, negative, at) <= hi,
        scan(body, negative, lo, hi, at) is Ok,
    ensures
        lo <= scan(body, negative, lo, hi, at)->Ok_0 <= hi,
    decreases body.len() - at,
{
    if at < body.len() {
        lemma_scan_in_range(body, negative, lo, hi, at + 1);
    }
}

/// A text that is read as an integer means one within the bounds.
pub proof fn lemma_int_parsed_in_range(raw: Seq<char>, signed: bool, lo: int, hi: int)
    requires
        int_parsed(raw, signed, lo, hi) is Ok,
    ensures
        lo <= int_parsed(raw, signed, lo, hi)->Ok_0 <= hi,
{
    if has_sign(raw, signed) {
        lemma_scan_in_range(raw.skip(1), raw[0] == '-', lo, hi, 0);
    } else {
        lemma_scan_in_range(raw, false, lo, hi, 0);
    }
}

/// A number as `parse_int` hands it out: its sign and its absolute value.
pub struct SignedMagnitude {
    pub negative: bool,
    pub magnitude: u128,
}

impl SignedMagnitude {
    /// The number itself.
    pub open spec fn value(self) -> int {
        if self.negative {
            -(self.magnitude as int)
        } else {
            self.magnitude as int
        }
    }
}

/// Reads `raw` as an integer between `-max_neg` and `max_pos`.
pub fn parse_int(raw: &str, signed: bool, max_neg: u128, max_pos: u128) -> (r: Result<
    SignedMagnitude,
    ParseCause,
>)
    ensures
        match r {
            Ok(m) => int_parsed(raw@, signed, -(max_neg as int), max_pos as int) == Ok::<
                int,
                ParseCause,
            >(m.value()) && (m.negative ==> signed) && m.magnitude <= (if m.negative {
                max_neg
            } else {
                max_pos
            }),
            Err(e) => int_parsed(raw@, signed, -(max_neg as int), max_pos as int) == Err::<
                int,
                ParseCause,
            >(e),
        },
{
    let chars = chars_of(raw);
    let n: usize = chars.len();
    if n == 0 {
        return Err(ParseCause::Empty);
    }
    let first: char = chars[0];
    let negative: bool = signed && first == '-';
    let start: usize = if first == '+' || negative {
        1
    } else {
        0
    };
    if start == 1 && n == 1 {
        return Err(ParseCause::InvalidDigit);
    }
    let limit: u128 = if negative {
        max_neg
    } else {
        max_pos
    };
    let ghost body = raw@.skip(start as int);
    let ghost lo = -(max_neg as int);
    let ghost hi = max_pos as int;
    let mut acc: u128 = 0;
    let mut i: usize = start;
    proof {
        assert(raw@.skip(0) =~= raw@);
    }
    while i < n
        invariant
            start <= i <= n,
            n == chars.len(),
            chars@ == raw@,
            body == raw@.skip(start as int),
            limit == (if negative {
                max_neg
            } else {
                max_pos
            }),
            lo == -(max_neg as int),
            hi == max_pos as int,
            int_parsed(raw@, signed, lo, hi) == scan(body, negative, lo, hi, 0),
            acc <= limit,
            acc == digits_value(body.take(i - start)),
            scan(body, negative, lo, hi, 0) == scan(body, negative, lo, hi, i - start),
        decreases n - i,
    {
        let c: char = chars[i];
        proof {
            assert(body.take(i - start + 1).drop_last() =~= body.take(i - start));
        }
        if !('0' <= c && c <= '9') {
            return Err(ParseCause::InvalidDigit);
        }
        let d: u128 = (c as u32 - '0' as u32) as u128;
        if d > limit || acc > (limit - d) / 10 {
            return Err(
                if negative {
                    ParseCause::NegOverflow
                } else {
                    ParseCause::PosOverflow
                },
            );
        }
        acc = acc * 10 + d;
        i += 1;
    }
    Ok(SignedMagnitude { negative, magnitude: acc })
}

} // verus!

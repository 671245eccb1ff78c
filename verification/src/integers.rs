//! The integer types as field types.

use crate::error::ParseCause;
use crate::number::{int_parsed, parse_int};
use crate::scalar::Scalar;
use vstd::prelude::*;

verus! {

impl Scalar for u8 {
    open spec fn parsed(raw: Seq<char>) -> Result<u8, ParseCause> {
        match int_parsed(raw, false, 0, u8::MAX as int) {
            Ok(v) => Ok(v as u8),
            Err(e) => Err(e),
        }
    }

    open spec fn zero() -> u8 {
        0
    }

    open spec fn descriptor() -> Seq<char> {
        "u8"@
    }

    fn parse(raw: &str) -> (r: Result<u8, ParseCause>) {
        match parse_int(raw, false, 0, u8::MAX as u128) {
            Ok(m) => Ok(m.magnitude as u8),
            Err(e) => Err(e),
        }
    }

    fn empty() -> (r: u8) {
        0
    }

    fn name() -> (r: &'static str) {
        "u8"
    }
}

impl Scalar for u16 {
    open spec fn parsed(raw: Seq<char>) -> Result<u16, ParseCause> {
        match int_parsed(raw, false, 0, u16::MAX as int) {
            Ok(v) => Ok(v as u16),
            Err(e) => Err(e),
        }
    }

    open spec fn zero() -> u16 {
        0
    }

    open spec fn descriptor() -> Seq<char> {
        "u16"@
    }

    fn parse(raw: &str) -> (r: Result<u16, ParseCause>) {
        match parse_int(raw, false, 0, u16::MAX as u128) {
            Ok(m) => Ok(m.magnitude as u16),
            Err(e) => Err(e),
        }
    }

    fn empty() -> (r: u16) {
        0
    }

    fn name() -> (r: &'static str) {
        "u16"
    }
}

impl Scalar for u32 {
    open spec fn parsed(raw: Seq<char>) -> Result<u32, ParseCause> {
        match int_parsed(raw, false, 0, u32::MAX as int) {
            Ok(v) => Ok(v as u32),
            Err(e) => Err(e),
        }
    }

    open spec fn zero() -> u32 {
        0
    }

    open spec fn descriptor() -> Seq<char> {
        "u32"@
    }

    fn parse(raw: &str) -> (r: Result<u32, ParseCause>) {
        match parse_int(raw, false, 0, u32::MAX as u128) {
            Ok(m) => Ok(m.magnitude as u32),
            Err(e) => Err(e),
        }
    }

    fn empty() -> (r: u32) {
        0
    }

    fn name() -> (r: &'static str) {
        "u32"
    }
}

impl Scalar for u64 {
    open spec fn parsed(raw: Seq<char>) -> Result<u64, ParseCause> {
        match int_parsed(raw, false, 0, u64::MAX as int) {
            Ok(v) => Ok(v as u64),
            Err(e) => Err(e),
        }
    }

    open spec fn zero() -> u64 {
        0
    }

    open spec fn descriptor() -> Seq<char> {
        "u64"@
    }

    fn parse(raw: &str) -> (r: Result<u64, ParseCause>) {
        match parse_int(raw, false, 0, u64::MAX as u128) {
            Ok(m) => Ok(m.magnitude as u64),
            Err(e) => Err(e),
        }
    }

    fn empty() -> (r: u64) {
        0
    }

    fn name() -> (r: &'static str) {
        "u64"
    }
}

impl Scalar for u128 {
    open spec fn parsed(raw: Seq<char>) -> Result<u128, ParseCause> {
        match int_parsed(raw, false, 0, u128::MAX as int) {
            Ok(v) => Ok(v as u128),
            Err(e) => Err(e),
        }
    }

    open spec fn zero() -> u128 {
        0
    }

    open spec fn descriptor() -> Seq<char> {
        "u128"@
    }

    fn parse(raw: &str) -> (r: Result<u128, ParseCause>) {
        match parse_int(raw, false, 0, u128::MAX as u128) {
            Ok(m) => Ok(m.magnitude as u128),
            Err(e) => Err(e),
        }
    }

    fn empty() -> (r: u128) {
        0
    }

    fn name() -> (r: &'static str) {
        "u128"
    }
}

impl Scalar for usize {
    open spec fn parsed(raw: Seq<char>) -> Result<usize, ParseCause> {
        match int_parsed(raw, false, 0, usize::MAX as int) {
            Ok(v) => Ok(v as usize),
            Err(e) => Err(e),
        }
    }

    open spec fn zero() -> usize {
        0
    }

    open spec fn descriptor() -> Seq<char> {
        "usize"@
    }

    fn parse(raw: &str) -> (r: Result<usize, ParseCause>) {
        match parse_int(raw, false, 0, usize::MAX as u128) {
            Ok(m) => Ok(m.magnitude as usize),
            Err(e) => Err(e),
        }
    }

    fn empty() -> (r: usize) {
        0
    }

    fn name() -> (r: &'static str) {
        "usize"
    }
}

impl Scalar for i8 {
    open spec fn parsed(raw: Seq<char>) -> Result<i8, ParseCause> {
        match int_parsed(raw, true, i8::MIN as int, i8::MAX as int) {
            Ok(v) => Ok(v as i8),
            Err(e) => Err(e),
        }
    }

    open spec fn zero() -> i8 {
        0
    }

    open spec fn descriptor() -> Seq<char> {
        "i8"@
    }

    fn parse(raw: &str) -> (r: Result<i8, ParseCause>) {
        match parse_int(raw, true, i8::MAX as u128 + 1, i8::MAX as u128) {
            Ok(m) => if !m.negative {
                Ok(m.magnitude as i8)
            } else if m.magnitude > i8::MAX as u128 {
                Ok(i8::MIN)
            } else {
                Ok(-(m.magnitude as i8))
            },
            Err(e) => Err(e),
        }
    }

    fn empty() -> (r: i8) {
        0
    }

    fn name() -> (r: &'static str) {
        "i8"
    }
}

impl Scalar for i16 {
    open spec fn parsed(raw: Seq<char>) -> Result<i16, ParseCause> {
        match int_parsed(raw, true, i16::MIN as int, i16::MAX as int) {
            Ok(v) => Ok(v as i16),
            Err(e) => Err(e),
        }
    }

    open spec fn zero() -> i16 {
        0
    }

    open spec fn descriptor() -> Seq<char> {
        "i16"@
    }

    fn parse(raw: &str) -> (r: Result<i16, ParseCause>) {
        match parse_int(raw, true, i16::MAX as u128 + 1, i16::MAX as u128) {
            Ok(m) => if !m.negative {
                Ok(m.magnitude as i16)
            } else if m.magnitude > i16::MAX as u128 {
                Ok(i16::MIN)
            } else {
                Ok(-(m.magnitude as i16))
            },
            Err(e) => Err(e),
        }
    }

    fn empty() -> (r: i16) {
        0
    }

    fn name() -> (r: &'static str) {
        "i16"
    }
}

impl Scalar for i32 {
    open spec fn parsed(raw: Seq<char>) -> Result<i32, ParseCause> {
        match int_parsed(raw, true, i32::MIN as int, i32::MAX as int) {
            Ok(v) => Ok(v as i32),
            Err(e) => Err(e),
        }
    }

    open spec fn zero() -> i32 {
        0
    }

    open spec fn descriptor() -> Seq<char> {
        "i32"@
    }

    fn parse(raw: &str) -> (r: Result<i32, ParseCause>) {
        match parse_int(raw, true, i32::MAX as u128 + 1, i32::MAX as u128) {
            Ok(m) => if !m.negative {
                Ok(m.magnitude as i32)
            } else if m.magnitude > i32::MAX as u128 {
                Ok(i32::MIN)
            } else {
                Ok(-(m.magnitude as i32))
            },
            Err(e) => Err(e),
        }
    }

    fn empty() -> (r: i32) {
        0
    }

    fn name() -> (r: &'static str) {
        "i32"
    }
}

impl Scalar for i64 {
    open spec fn parsed(raw: Seq<char>) -> Result<i64, ParseCause> {
        match int_parsed(raw, true, i64::MIN as int, i64::MAX as int) {
            Ok(v) => Ok(v as i64),
            Err(e) => Err(e),
        }
    }

    open spec fn zero() -> i64 {
        0
    }

    open spec fn descriptor() -> Seq<char> {
        "i64"@
    }

    fn parse(raw: &str) -> (r: Result<i64, ParseCause>) {
        match parse_int(raw, true, i64::MAX as u128 + 1, i64::MAX as u128) {
            Ok(m) => if !m.negative {
                Ok(m.magnitude as i64)
            } else if m.magnitude > i64::MAX as u128 {
                Ok(i64::MIN)
            } else {
                Ok(-(m.magnitude as i64))
            },
            Err(e) => Err(e),
        }
    }

    fn empty() -> (r: i64) {
        0
    }

    fn name() -> (r: &'static str) {
        "i64"
    }
}

impl Scalar for i128 {
    open spec fn parsed(raw: Seq<char>) -> Result<i128, ParseCause> {
        match int_parsed(raw, true, i128::MIN as int, i128::MAX as int) {
            Ok(v) => Ok(v as i128),
            Err(e) => Err(e),
        }
    }

    open spec fn zero() -> i128 {
        0
    }

    open spec fn descriptor() -> Seq<char> {
        "i128"@
    }

    fn parse(raw: &str) -> (r: Result<i128, ParseCause>) {
        match parse_int(raw, true, i128::MAX as u128 + 1, i128::MAX as u128) {
            Ok(m) => if !m.negative {
                Ok(m.magnitude as i128)
            } else if m.magnitude > i128::MAX as u128 {
                Ok(i128::MIN)
            } else {
                Ok(-(m.magnitude as i128))
            },
            Err(e) => Err(e),
        }
    }

    fn empty() -> (r: i128) {
        0
    }

    fn name() -> (r: &'static str) {
        "i128"
    }
}

impl Scalar for isize {
    open spec fn parsed(raw: Seq<char>) -> Result<isize, ParseCause> {
        match int_parsed(raw, true, isize::MIN as int, isize::MAX as int) {
            Ok(v) => Ok(v as isize),
            Err(e) => Err(e),
        }
    }

    open spec fn zero() -> isize {
        0
    }

    open spec fn descriptor() -> Seq<char> {
        "isize"@
    }

    fn parse(raw: &str) -> (r: Result<isize, ParseCause>) {
        match parse_int(raw, true, isize::MAX as u128 + 1, isize::MAX as u128) {
            Ok(m) => if !m.negative {
                Ok(m.magnitude as isize)
            } else if m.magnitude > isize::MAX as u128 {
                Ok(isize::MIN)
            } else {
                Ok(-(m.magnitude as isize))
            },
            Err(e) => Err(e),
        }
    }

    fn empty() -> (r: isize) {
        0
    }

    fn name() -> (r: &'static str) {
        "isize"
    }
}

} // verus!

//! The types a field can hold, and how each is read from text.

use crate::error::ParseCause;
use crate::text::chars_of;
use vstd::prelude::*;

verus! {

/// A type whose values are written as text in a source.
///
/// `parsed` is the type's rule for reading a text; `parse` computes it.
pub trait Scalar: Sized + View {
    /// What the text `raw` means as a value of this type, or why it means none.
    spec fn parsed(raw: Seq<char>) -> Result<Self::V, ParseCause>;

    /// The value of a field that is unset, optional and without default.
    spec fn zero() -> Self::V;

    /// The type's name, as it stands in a diagnostic.
    spec fn descriptor() -> Seq<char>;

    /// Reads `raw` as a value of this type.
    fn parse(raw: &str) -> (r: Result<Self, ParseCause>)
        ensures
            match r {
                Ok(v) => Self::parsed(raw@) == Ok::<Self::V, ParseCause>(v@),
                Err(e) => Self::parsed(raw@) == Err::<Self::V, ParseCause>(e),
            },
    ;

    /// The value of a field that is unset, optional and without default.
    fn empty() -> (r: Self)
        ensures
            r@ == Self::zero(),
    ;

    /// The type's name, as it stands in a diagnostic.
    fn name() -> (r: &'static str)
        ensures
            r@ == Self::descriptor(),
    ;
}

impl Scalar for String {
    open spec fn parsed(raw: Seq<char>) -> Result<Seq<char>, ParseCause> {
        Ok(raw)
    }

    open spec fn zero() -> Seq<char> {
        Seq::empty()
    }

    open spec fn descriptor() -> Seq<char> {
        "alloc::string::String"@
    }

    fn parse(raw: &str) -> (r: Result<String, ParseCause>) {
        Ok(raw.to_owned())
    }

    fn empty() -> (r: String) {
        String::new()
    }

    fn name() -> (r: &'static str) {
        "alloc::string::String"
    }
}

impl Scalar for bool {
    open spec fn parsed(raw: Seq<char>) -> Result<bool, ParseCause> {
        if raw == seq!['t', 'r', 'u', 'e'] {
            Ok(true)
        } else if raw == seq!['f', 'a', 'l', 's', 'e'] {
            Ok(false)
        } else {
            Err(ParseCause::InvalidBool)
        }
    }

    open spec fn zero() -> bool {
        false
    }

    open spec fn descriptor() -> Seq<char> {
        "bool"@
    }

    fn parse(raw: &str) -> (r: Result<bool, ParseCause>) {
        let chars = chars_of(raw);
        if chars.len() == 4 && chars[0] == 't' && chars[1] == 'r' && chars[2] == 'u' && chars[3]
            == 'e' {
            assert(raw@ =~= seq!['t', 'r', 'u', 'e']);
            Ok(true)
        } else if chars.len() == 5 && chars[0] == 'f' && chars[1] == 'a' && chars[2] == 'l'
            && chars[3] == 's' && chars[4] == 'e' {
            assert(raw@ =~= seq!['f', 'a', 'l', 's', 'e']);
            Ok(false)
        } else {
            Err(ParseCause::InvalidBool)
        }
    }

    fn empty() -> (r: bool) {
        false
    }

    fn name() -> (r: &'static str) {
        "bool"
    }
}

impl Scalar for char {
    open spec fn parsed(raw: Seq<char>) -> Result<char, ParseCause> {
        if raw.len() == 0 {
            Err(ParseCause::EmptyChar)
        } else if raw.len() == 1 {
            Ok(raw[0])
        } else {
            Err(ParseCause::TooManyChars)
        }
    }

    open spec fn zero() -> char {
        '\0'
    }

    open spec fn descriptor() -> Seq<char> {
        "char"@
    }

    fn parse(raw: &str) -> (r: Result<char, ParseCause>) {
        let chars = chars_of(raw);
        if chars.len() == 0 {
            Err(ParseCause::EmptyChar)
        } else if chars.len() == 1 {
            Ok(chars[0])
        } else {
            Err(ParseCause::TooManyChars)
        }
    }

    fn empty() -> (r: char) {
        '\0'
    }

    fn name() -> (r: &'static str) {
        "char"
    }
}

} // verus!

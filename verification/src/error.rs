//! The errors of a load, and why a text was refused as a value.

use vstd::prelude::*;
use vstd::string::StringExecFns;

verus! {

/// Why a text is no value of the type it was meant for.
#[derive(Clone, Copy, Debug, PartialEq, Eq, Structural)]
pub enum ParseCause {
    /// A number was expected and the text is empty.
    Empty,
    /// A number was expected and a character is no digit.
    InvalidDigit,
    /// The number is above the largest value of the type.
    PosOverflow,
    /// The number is below the smallest value of the type.
    NegOverflow,
    /// The text is neither `true` nor `false`.
    InvalidBool,
    /// A character was expected and the text is empty.
    EmptyChar,
    /// A character was expected and the text holds more than one.
    TooManyChars,
    /// The text is no value of a type that this library does not know.
    Invalid,
}

/// What went wrong in a load.
#[allow(inconsistent_fields)]
#[derive(Clone, Debug, PartialEq, Eq)]
pub enum CfgError {
    /// A required field without default found its key unset or blank.
    MissingEnv(String),
    /// A text, from the source or from a default, is no value of the field's type.
    ParseError { key: String, value: String, ty: String, source: ParseCause },
    /// A file could not be taken in.
    LoadError { msg: String, source: String },
}

/// A `CfgError` with its strings as sequences of characters.
#[allow(inconsistent_fields)]
pub enum CfgErrorView {
    MissingEnv(Seq<char>),
    ParseError { key: Seq<char>, value: Seq<char>, ty: Seq<char>, source: ParseCause },
    LoadError { msg: Seq<char>, source: Seq<char> },
}

impl View for CfgError {
    type V = CfgErrorView;

    open spec fn view(&self) -> CfgErrorView {
        match self {
            CfgError::MissingEnv(key) => CfgErrorView::MissingEnv(key@),
            CfgError::ParseError { key, value, ty, source } => CfgErrorView::ParseError {
                key: key@,
                value: value@,
                ty: ty@,
                source: *source,
            },
            CfgError::LoadError { msg, source } => CfgErrorView::LoadError {
                msg: msg@,
                source: source@,
            },
        }
    }
}

impl ParseCause {
    /// The cause in words.
    pub open spec fn text(self) -> Seq<char> {
        match self {
            ParseCause::Empty => "cannot parse integer from empty string"@,
            ParseCause::InvalidDigit => "invalid digit found in string"@,
            ParseCause::PosOverflow => "number too large to fit in target type"@,
            ParseCause::NegOverflow => "number too small to fit in target type"@,
            ParseCause::InvalidBool => "provided string was not `true` or `false`"@,
            ParseCause::EmptyChar => "cannot parse char from empty string"@,
            ParseCause::TooManyChars => "too many characters in string"@,
            ParseCause::Invalid => "invalid value"@,
        }
    }

    /// The cause in words.
    pub fn message(&self) -> (r: String)
        ensures
            r@ == self.text(),
    {
        match self {
            ParseCause::Empty => "cannot parse integer from empty string".to_owned(),
            ParseCause::InvalidDigit => "invalid digit found in string".to_owned(),
            ParseCause::PosOverflow => "number too large to fit in target type".to_owned(),
            ParseCause::NegOverflow => "number too small to fit in target type".to_owned(),
            ParseCause::InvalidBool => "provided string was not `true` or `false`".to_owned(),
            ParseCause::EmptyChar => "cannot parse char from empty string".to_owned(),
            ParseCause::TooManyChars => "too many characters in string".to_owned(),
            ParseCause::Invalid => "invalid value".to_owned(),
        }
    }
}

impl CfgErrorView {
    /// The error in words.
    pub open spec fn text(self) -> Seq<char> {
        match self {
            CfgErrorView::MissingEnv(key) => "missing required env: "@ + key,
            CfgErrorView::ParseError { key, value, ty, .. } => "failed to parse env "@ + key
                + " value `"@ + value + "` into "@ + ty,
            CfgErrorView::LoadError { msg, .. } => "failed to load env: "@ + msg,
        }
    }

    /// What lies beneath the error, in words: the cause of a parse error,
    /// the reason of a load error, nothing for a missing key.
    pub open spec fn source_text(self) -> Option<Seq<char>> {
        match self {
            CfgErrorView::MissingEnv(_) => None,
            CfgErrorView::ParseError { source, .. } => Some(source.text()),
            CfgErrorView::LoadError { source, .. } => Some(source),
        }
    }
}

impl CfgError {
    /// The error in words.
    pub fn message(&self) -> (r: String)
        ensures
            r@ == self@.text(),
    {
        match self {
            CfgError::MissingEnv(key) => {
                let mut out = "missing required env: ".to_owned();
                out.append(key.as_str());
                out
            },
            CfgError::ParseError { key, value, ty, .. } => {
                let mut out = "failed to parse env ".to_owned();
                out.append(key.as_str());
                out.append(" value `");
                out.append(value.as_str());
                out.append("` into ");
                out.append(ty.as_str());
                out
            },
            CfgError::LoadError { msg, .. } => {
                let mut out = "failed to load env: ".to_owned();
                out.append(msg.as_str());
                out
            },
        }
    }

    /// What lies beneath the error, in words.
    pub fn source_message(&self) -> (r: Option<String>)
        ensures
            match r {
                Some(text) => self@.source_text() == Some(text@),
                None => self@.source_text() is None,
            },
    {
        match self {
            CfgError::MissingEnv(_) => None,
            CfgError::ParseError { source, .. } => Some(source.message()),
            CfgError::LoadError { source, .. } => Some(source.clone()),
        }
    }
}

} // verus!

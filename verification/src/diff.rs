//! The signed brightness-change instruction and its parser.
//!
//! A diff is given on the command line as a sign character followed by a
//! magnitude: `+30` asks to raise the level by thirty, `-30` to lower it by
//! thirty. Parsing validates the whole shape: the string must be a `+` or
//! `-` followed by one or more decimal digits whose value fits in a `u32`,
//! and each way a string can fail that shape is reported as its own error.

use vstd::prelude::*;

use crate::text::all_digits;
use crate::text::dec_value;

verus! {

/// A signed brightness change: raise or lower the level by a magnitude.
#[derive(Clone, Copy, Debug, PartialEq, Eq, Structural)]
pub enum Diff {
    Increase(u32),
    Decrease(u32),
}

/// Why a diff string was rejected.
#[derive(Clone, Copy, Debug, PartialEq, Eq, Structural)]
pub enum ParseError {
    /// The string is empty, so there is no sign character.
    MissingSign,
    /// The first character is neither `+` nor `-`.
    WrongSign,
    /// Nothing follows the sign.
    MissingMagnitude,
    /// What follows the sign is not decimal digits, or its value does not
    /// fit in a `u32`.
    InvalidMagnitude,
}

/// A well-formed diff string: a sign, then one or more decimal digits whose
/// value fits in a `u32`.
pub open spec fn valid_diff(s: Seq<char>) -> bool {
    &&& s.len() >= 2
    &&& (s[0] == '+' || s[0] == '-')
    &&& all_digits(s.skip(1))
    &&& dec_value(s.skip(1)) <= u32::MAX
}

/// The diff that a well-formed diff string denotes.
pub open spec fn diff_of(s: Seq<char>) -> Diff
    recommends
        valid_diff(s),
{
    if s[0] == '+' {
        Diff::Increase(dec_value(s.skip(1)) as u32)
    } else {
        Diff::Decrease(dec_value(s.skip(1)) as u32)
    }
}

/// The error reported for an ill-formed diff string: the first failure in
/// the order sign present, sign well chosen, magnitude present, magnitude a
/// number that fits.
pub open spec fn diff_error_of(s: Seq<char>) -> ParseError
    recommends
        !valid_diff(s),
{
    if s.len() == 0 {
        ParseError::MissingSign
    } else if s[0] != '+' && s[0] != '-' {
        ParseError::WrongSign
    } else if s.len() == 1 {
        ParseError::MissingMagnitude
    } else {
        ParseError::InvalidMagnitude
    }
}

/// What `Diff::parse` returns on any input.
pub open spec fn parse_diff_spec(s: Seq<char>) -> Result<Diff, ParseError> {
    if valid_diff(s) {
        Ok(diff_of(s))
    } else {
        Err(diff_error_of(s))
    }
}

impl ParseError {
    /// The message shown for this error.
    pub open spec fn message_spec(self) -> Seq<char> {
        match self {
            ParseError::MissingSign => "invalid diff: missing sign"@,
            ParseError::WrongSign => "invalid diff: sign must be + or -"@,
            ParseError::MissingMagnitude => "invalid diff: missing magnitude"@,
            ParseError::InvalidMagnitude => "invalid diff: invalid magnitude"@,
        }
    }

    /// A human-readable description of the error, fixed per variant.
    pub fn message(&self) -> (r: String)
        ensures
            r@ == self.message_spec(),
    {
        match self {
            ParseError::MissingSign => "invalid diff: missing sign".to_owned(),
            ParseError::WrongSign => "invalid diff: sign must be + or -".to_owned(),
            ParseError::MissingMagnitude => "invalid diff: missing magnitude".to_owned(),
            ParseError::InvalidMagnitude => "invalid diff: invalid magnitude".to_owned(),
        }
    }
}

impl Diff {
    /// Parses a diff string: exactly the well-formed strings are accepted,
    /// the denoted sign and magnitude are returned, and each ill-formed
    /// string is rejected with the error for its first defect.
    pub fn parse(s: &str) -> (r: Result<Diff, ParseError>)
        ensures
            r == parse_diff_spec(s@),
    {
        let n = s.unicode_len();
        if n == 0 {
            return Err(ParseError::MissingSign);
        }
        let sign = s.get_char(0);
        if sign != '+' && sign != '-' {
            return Err(ParseError::WrongSign);
        }
        if n == 1 {
            return Err(ParseError::MissingMagnitude);
        }
        let rest = s.substring_char(1, n);
        assert(rest@ =~= s@.skip(1));
        match crate::text::parse_digits(rest) {
            Some(m) => {
                if sign == '+' {
                    Ok(Diff::Increase(m))
                } else {
                    Ok(Diff::Decrease(m))
                }
            },
            None => Err(ParseError::InvalidMagnitude),
        }
    }
}

} // verus!

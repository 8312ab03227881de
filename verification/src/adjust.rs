//! Applying a diff to a brightness level, clamped into `[0, max]`.
//!
//! `apply` is the one computation of the utility: raising saturates at the
//! maximum read from the device, lowering floors at zero, and neither
//! direction ever wraps. `new_level` strings the whole pipeline together on
//! plain text, so a caller only reads the two device files, hands the three
//! strings in, and writes the result back.

use vstd::prelude::*;

use crate::diff::Diff;
use crate::diff::ParseError;
use crate::diff::diff_error_of;
use crate::diff::diff_of;
use crate::diff::valid_diff;
use crate::text::value_of;

verus! {

/// The new level after `d` is applied to `current` under the bound `max`:
/// `min(current + m, max)` when raising, `max(current - m, 0)` when
/// lowering, both computed without wrapping.
pub open spec fn apply_spec(current: u32, max: u32, d: Diff) -> u32 {
    match d {
        Diff::Increase(m) => if current + m > max {
            max
        } else {
            (current + m) as u32
        },
        Diff::Decrease(m) => if m > current {
            0u32
        } else {
            (current - m) as u32
        },
    }
}

/// Applies a diff to the current level: the result is `min(current + m, max)`
/// for a raise and `max(current - m, 0)` for a lower, never wraps, and, as
/// long as `current` did not already exceed `max`, a raise lands in
/// `[current, max]` and a lower in `[0, current]`.
pub fn apply(current: u32, max: u32, d: Diff) -> (r: u32)
    ensures
        r == apply_spec(current, max, d),
        d matches Diff::Increase(m) ==> r == vstd::math::min(current + m, max as int),
        d matches Diff::Decrease(m) ==> r == vstd::math::max(current - m, 0),
        current <= max ==> r <= max,
        d is Increase && current <= max ==> current <= r,
        d is Decrease ==> r <= current,
{
    match d {
        Diff::Increase(m) => {
            let raised = if current <= u32::MAX - m {
                current + m
            } else {
                u32::MAX
            };
            if raised > max {
                max
            } else {
                raised
            }
        },
        Diff::Decrease(m) => {
            if m > current {
                0
            } else {
                current - m
            }
        },
    }
}

/// Everything that can go wrong between reading the device files and
/// computing the new level.
#[derive(Clone, Copy, Debug, PartialEq, Eq, Structural)]
pub enum Error {
    /// The diff argument is ill-formed.
    Parse(ParseError),
    /// A device file does not hold a decimal number that fits in a `u32`.
    NumericParse,
    /// A device file could not be read or written. The library itself does
    /// no I/O, so this arises only in callers that do.
    Io,
}

impl Error {
    /// The message shown for this error.
    pub open spec fn message_spec(self) -> Seq<char> {
        match self {
            Error::Parse(p) => p.message_spec(),
            Error::NumericParse => "device file does not hold a brightness number"@,
            Error::Io => "could not access a device file"@,
        }
    }

    /// A human-readable description of the error, fixed per variant.
    pub fn message(&self) -> (r: String)
        ensures
            r@ == self.message_spec(),
    {
        match self {
            Error::Parse(p) => p.message(),
            Error::NumericParse => "device file does not hold a brightness number".to_owned(),
            Error::Io => "could not access a device file".to_owned(),
        }
    }
}

/// What `new_level` returns on any input: the first failure among reading
/// the maximum, reading the current level and parsing the diff, and
/// otherwise the clamped new level.
pub open spec fn new_level_spec(current_text: Seq<char>, max_text: Seq<char>, diff_text: Seq<char>) -> Result<
    u32,
    Error,
> {
    if value_of(max_text) is None {
        Err(Error::NumericParse)
    } else if value_of(current_text) is None {
        Err(Error::NumericParse)
    } else if !valid_diff(diff_text) {
        Err(Error::Parse(diff_error_of(diff_text)))
    } else {
        Ok(apply_spec(value_of(current_text).unwrap(), value_of(max_text).unwrap(), diff_of(diff_text)))
    }
}

/// The whole computation of the utility on plain text: reads the maximum
/// and the current level out of the two device-file texts, parses the diff
/// argument, and returns the clamped new level, or the first error met in
/// that order.
pub fn new_level(current_text: &str, max_text: &str, diff_text: &str) -> (r: Result<u32, Error>)
    ensures
        r == new_level_spec(current_text@, max_text@, diff_text@),
        ({
            let co = value_of(current_text@);
            let mo = value_of(max_text@);
            co is Some && mo is Some && co->Some_0 <= mo->Some_0 && r is Ok ==> r->Ok_0
                <= mo->Some_0
        }),
{
    let max = match crate::text::parse_value(max_text) {
        Some(v) => v,
        None => {
            return Err(Error::NumericParse);
        },
    };
    let current = match crate::text::parse_value(current_text) {
        Some(v) => v,
        None => {
            return Err(Error::NumericParse);
        },
    };
    let d = match Diff::parse(diff_text) {
        Ok(d) => d,
        Err(e) => {
            return Err(Error::Parse(e));
        },
    };
    Ok(apply(current, max, d))
}

} // verus!

//! Verified core of a backlight-brightness adjustment utility.
//!
//! The library parses a signed diff expression (`+<n>` or `-<n>`), applies it
//! to a current brightness level with clamping into `[0, max]`, and converts
//! brightness levels between their decimal text form (as stored by the
//! device's text files) and `u32` values. All I/O stays outside the library:
//! callers hand in the file contents and the argument string as plain strings
//! and receive the new level back.

pub mod adjust;
pub mod diff;
pub mod text;

//! Selective conversion of ASCII digits to their ideographic equivalents.
//!
//! Given a string, an optional separator splitting it into two segments,
//! and prefix/suffix decorations, exactly one digit of every segment that
//! holds a digit is rewritten as an ideograph. The digit is chosen
//! deterministically:
//! the position closest to the segment's center wins, ties go to the
//! smaller index, and digits `'2'`–`'9'` take precedence over `'0'` and
//! `'1'`.

pub mod digits;
pub mod select;
pub mod convert;
pub mod decorate;

pub use convert::convert_segment;
pub use decorate::convert_and_decorate;
pub use digits::map_digit;

//! Human-readable formatting of numeric magnitudes.
//!
//! A [`Formatter`] holds an ordered table of magnitude tiers (powers of a
//! base, each with a unit label), picks the tier a number falls into, splits
//! the number exactly into an integer part and a fractional remainder, and
//! renders it with a fixed number of decimal places, truncating (never
//! rounding) the fraction. Values beyond the last tier fall back to
//! scientific notation.

pub mod digits;
pub mod format;
pub mod formatted;
pub mod humat;
pub mod laws;
pub mod unit;

pub use format::{ConfigError, Formatter, Preset};
pub use formatted::Formatted;
pub use humat::Humat;
pub use unit::RangedUnit;

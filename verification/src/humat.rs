//! The closed family of numbers a formatter accepts.
//!
//! Each fixed-width integer type dispatches to the unsigned or signed
//! formatting path through this trait. The set is closed by design: a caller
//! picks one of these types, and every impl carries the same contract, so
//! `Formatter::format` is specified once for all of them.

use vstd::prelude::*;

use crate::format::{abs_mag, formatted_model, Formatter, MAX_DECIMAL_PLACES};
use crate::formatted::Formatted;

verus! {

/// Helper trait for formatting numbers in a human-readable way.
pub trait Humat: Sized {
    /// Whether the value is non-negative.
    spec fn is_nonneg(self) -> bool;

    /// The value's magnitude.
    spec fn magnitude(self) -> nat;

    /// Formats the number with the formatter's configured decimal places.
    fn humat(self, formatter: &Formatter) -> (r: Formatted)
        requires
            formatter.wf(),
        ensures
            r@ == formatted_model(
                formatter@,
                self.is_nonneg(),
                self.magnitude(),
                formatter@.decimal_places,
            ),
            r@.wf(),
    ;

    /// Formats the number with the given number of decimal places.
    fn humat_fixed_dp(self, formatter: &Formatter, decimal_places: usize) -> (r: Formatted)
        requires
            formatter.wf(),
            decimal_places <= MAX_DECIMAL_PLACES,
        ensures
            r@ == formatted_model(
                formatter@,
                self.is_nonneg(),
                self.magnitude(),
                decimal_places as nat,
            ),
            r@.wf(),
    ;
}

impl Humat for u8 {
    open spec fn is_nonneg(self) -> bool {
        true
    }

    open spec fn magnitude(self) -> nat {
        self as nat
    }

    fn humat(self, formatter: &Formatter) -> (r: Formatted) {
        formatter.format_uint(self as u128)
    }

    fn humat_fixed_dp(self, formatter: &Formatter, decimal_places: usize) -> (r: Formatted) {
        formatter.format_uint_fixed_dp(self as u128, decimal_places)
    }
}

impl Humat for u16 {
    open spec fn is_nonneg(self) -> bool {
        true
    }

    open spec fn magnitude(self) -> nat {
        self as nat
    }

    fn humat(self, formatter: &Formatter) -> (r: Formatted) {
        formatter.format_uint(self as u128)
    }

    fn humat_fixed_dp(self, formatter: &Formatter, decimal_places: usize) -> (r: Formatted) {
        formatter.format_uint_fixed_dp(self as u128, decimal_places)
    }
}

impl Humat for u32 {
    open spec fn is_nonneg(self) -> bool {
        true
    }

    open spec fn magnitude(self) -> nat {
        self as nat
    }

    fn humat(self, formatter: &Formatter) -> (r: Formatted) {
        formatter.format_uint(self as u128)
    }

    fn humat_fixed_dp(self, formatter: &Formatter, decimal_places: usize) -> (r: Formatted) {
        formatter.format_uint_fixed_dp(self as u128, decimal_places)
    }
}

impl Humat for u64 {
    open spec fn is_nonneg(self) -> bool {
        true
    }

    open spec fn magnitude(self) -> nat {
        self as nat
    }

    fn humat(self, formatter: &Formatter) -> (r: Formatted) {
        formatter.format_uint(self as u128)
    }

    fn humat_fixed_dp(self, formatter: &Formatter, decimal_places: usize) -> (r: Formatted) {
        formatter.format_uint_fixed_dp(self as u128, decimal_places)
    }
}

impl Humat for u128 {
    open spec fn is_nonneg(self) -> bool {
        true
    }

    open spec fn magnitude(self) -> nat {
        self as nat
    }

    fn humat(self, formatter: &Formatter) -> (r: Formatted) {
        formatter.format_uint(self)
    }

    fn humat_fixed_dp(self, formatter: &Formatter, decimal_places: usize) -> (r: Formatted) {
        formatter.format_uint_fixed_dp(self, decimal_places)
    }
}

impl Humat for usize {
    open spec fn is_nonneg(self) -> bool {
        true
    }

    open spec fn magnitude(self) -> nat {
        self as nat
    }

    fn humat(self, formatter: &Formatter) -> (r: Formatted) {
        formatter.format_uint(self as u128)
    }

    fn humat_fixed_dp(self, formatter: &Formatter, decimal_places: usize) -> (r: Formatted) {
        formatter.format_uint_fixed_dp(self as u128, decimal_places)
    }
}

impl Humat for i8 {
    open spec fn is_nonneg(self) -> bool {
        self >= 0
    }

    open spec fn magnitude(self) -> nat {
        abs_mag(self as int)
    }

    fn humat(self, formatter: &Formatter) -> (r: Formatted) {
        formatter.format_int(self as i128)
    }

    fn humat_fixed_dp(self, formatter: &Formatter, decimal_places: usize) -> (r: Formatted) {
        formatter.format_int_fixed_dp(self as i128, decimal_places)
    }
}

impl Humat for i16 {
    open spec fn is_nonneg(self) -> bool {
        self >= 0
    }

    open spec fn magnitude(self) -> nat {
        abs_mag(self as int)
    }

    fn humat(self, formatter: &Formatter) -> (r: Formatted) {
        formatter.format_int(self as i128)
    }

    fn humat_fixed_dp(self, formatter: &Formatter, decimal_places: usize) -> (r: Formatted) {
        formatter.format_int_fixed_dp(self as i128, decimal_places)
    }
}

impl Humat for i32 {
    open spec fn is_nonneg(self) -> bool {
        self >= 0
    }

    open spec fn magnitude(self) -> nat {
        abs_mag(self as int)
    }

    fn humat(self, formatter: &Formatter) -> (r: Formatted) {
        formatter.format_int(self as i128)
    }

    fn humat_fixed_dp(self, formatter: &Formatter, decimal_places: usize) -> (r: Formatted) {
        formatter.format_int_fixed_dp(self as i128, decimal_places)
    }
}

impl Humat for i64 {
    open spec fn is_nonneg(self) -> bool {
        self >= 0
    }

    open spec fn magnitude(self) -> nat {
        abs_mag(self as int)
    }

    fn humat(self, formatter: &Formatter) -> (r: Formatted) {
        formatter.format_int(self as i128)
    }

    fn humat_fixed_dp(self, formatter: &Formatter, decimal_places: usize) -> (r: Formatted) {
        formatter.format_int_fixed_dp(self as i128, decimal_places)
    }
}

impl Humat for i128 {
    open spec fn is_nonneg(self) -> bool {
        self >= 0
    }

    open spec fn magnitude(self) -> nat {
        abs_mag(self as int)
    }

    fn humat(self, formatter: &Formatter) -> (r: Formatted) {
        formatter.format_int(self)
    }

    fn humat_fixed_dp(self, formatter: &Formatter, decimal_places: usize) -> (r: Formatted) {
        formatter.format_int_fixed_dp(self, decimal_places)
    }
}

impl Humat for isize {
    open spec fn is_nonneg(self) -> bool {
        self >= 0
    }

    open spec fn magnitude(self) -> nat {
        abs_mag(self as int)
    }

    fn humat(self, formatter: &Formatter) -> (r: Formatted) {
        formatter.format_int(self as i128)
    }

    fn humat_fixed_dp(self, formatter: &Formatter, decimal_places: usize) -> (r: Formatted) {
        formatter.format_int_fixed_dp(self as i128, decimal_places)
    }
}

} // verus!

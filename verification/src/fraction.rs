//! Exact rational scaling factors.

use vstd::prelude::*;

verus! {

/// A rational number of seconds: the length of one tick.
///
/// The two parts need not be in lowest terms; all arithmetic treats the pair
/// as the exact rational `numerator / denominator`.
#[derive(Clone, Copy, Debug, PartialEq, Eq, Structural)]
pub struct Fraction {
    /// The part above the line.
    pub numerator: u32,
    /// The part below the line.
    pub denominator: u32,
}

/// The fraction `numerator / denominator`, for use in contracts.
pub open spec fn ratio(numerator: u32, denominator: u32) -> Fraction {
    Fraction { numerator, denominator }
}

impl Fraction {
    /// A usable scaling factor is strictly positive.
    pub open spec fn well_formed(self) -> bool {
        self.numerator > 0 && self.denominator > 0
    }

    /// Two fractions that denote the same rational number.
    pub open spec fn same_value(self, other: Fraction) -> bool {
        self.numerator * other.denominator == other.numerator * self.denominator
    }

    /// Builds the fraction `numerator / denominator` of two positive
    /// numbers.
    pub fn new(numerator: u32, denominator: u32) -> (f: Fraction)
        requires
            numerator > 0,
            denominator > 0,
        ensures
            f == ratio(numerator, denominator),
            f.well_formed(),
    {
        Fraction { numerator, denominator }
    }

    /// Whether both parts are positive.
    pub fn is_usable(&self) -> (usable: bool)
        ensures
            usable == self.well_formed(),
    {
        self.numerator > 0 && self.denominator > 0
    }

    /// The part above the line.
    pub fn numerator(&self) -> (n: &u32)
        ensures
            *n == self.numerator,
    {
        &self.numerator
    }

    /// The part below the line.
    pub fn denominator(&self) -> (d: &u32)
        ensures
            *d == self.denominator,
    {
        &self.denominator
    }
}

} // verus!

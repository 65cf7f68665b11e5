//! Double-precision numbers, held by their bit patterns.
//!
//! Prices, volumes and rates are carried through the library as the 64 bits of
//! an IEEE-754 double. Comparing two of them takes integers only; arithmetic on
//! them happens outside.

use vstd::prelude::*;

verus! {

/// Bit pattern of the sign bit.
pub const SIGN_BIT: u64 = 0x8000_0000_0000_0000;

/// Magnitude of an infinity; every larger magnitude is a NaN.
pub const INFINITE_MAGNITUDE: u64 = 0x7FF0_0000_0000_0000;

/// The 64 bits of a double.
///
/// `==` compares bits: it tells the two zeros apart and finds a NaN equal to
/// itself. The numeric comparisons are the methods below.
#[derive(Clone, Copy, Debug, PartialEq, Eq, Structural)]
pub struct Double {
    pub bits: u64,
}

impl Double {
    /// The bits below the sign.
    pub open spec fn magnitude(self) -> int {
        if self.bits >= SIGN_BIT {
            self.bits - SIGN_BIT
        } else {
            self.bits as int
        }
    }

    /// Whether the bits are not a number.
    pub open spec fn nan(self) -> bool {
        self.magnitude() > INFINITE_MAGNITUDE
    }

    /// Where a number stands among all numbers: one double is smaller than
    /// another exactly when its rank is smaller. Both zeros have rank zero.
    pub open spec fn rank(self) -> int {
        if self.bits >= SIGN_BIT {
            -self.magnitude()
        } else {
            self.magnitude()
        }
    }

    /// `self < other` as doubles; false where either is a NaN.
    pub open spec fn lt(self, other: Double) -> bool {
        !self.nan() && !other.nan() && self.rank() < other.rank()
    }

    /// `self <= other` as doubles; false where either is a NaN.
    pub open spec fn le(self, other: Double) -> bool {
        !self.nan() && !other.nan() && self.rank() <= other.rank()
    }

    /// Positive zero.
    pub open spec fn spec_zero() -> Double {
        Double { bits: 0 }
    }

    /// Positive zero.
    #[verifier::when_used_as_spec(spec_zero)]
    pub fn zero() -> (r: Double)
        ensures
            r == Double::spec_zero(),
    {
        Double { bits: 0 }
    }

    fn standing(self) -> (r: i64)
        requires
            !self.nan(),
        ensures
            r == self.rank(),
    {
        if self.bits >= SIGN_BIT {
            let m: i64 = (self.bits - SIGN_BIT) as i64;
            -m
        } else {
            self.bits as i64
        }
    }

    /// Whether the bits are not a number.
    pub fn is_nan(self) -> (r: bool)
        ensures
            r == self.nan(),
    {
        if self.bits >= SIGN_BIT {
            self.bits - SIGN_BIT > INFINITE_MAGNITUDE
        } else {
            self.bits > INFINITE_MAGNITUDE
        }
    }

    /// `self < other` as doubles.
    pub fn is_less(self, other: Double) -> (r: bool)
        ensures
            r == self.lt(other),
    {
        !self.is_nan() && !other.is_nan() && self.standing() < other.standing()
    }

    /// `self >= other` as doubles.
    pub fn is_at_least(self, other: Double) -> (r: bool)
        ensures
            r == other.le(self),
    {
        !self.is_nan() && !other.is_nan() && self.standing() >= other.standing()
    }

    /// `self > 0.0`.
    pub fn is_positive(self) -> (r: bool)
        ensures
            r == Double::zero().lt(self),
    {
        Double::zero().is_less(self)
    }

    /// The nearest number between two bounds; a NaN stays one.
    pub open spec fn within(self, low: Double, high: Double) -> Double {
        if self.lt(low) {
            low
        } else if high.lt(self) {
            high
        } else {
            self
        }
    }

    /// The nearest number between two bounds; a NaN stays one.
    pub fn clamp(self, low: Double, high: Double) -> (r: Double)
        requires
            low.le(high),
        ensures
            r == self.within(low, high),
    {
        if self.is_less(low) {
            low
        } else if high.is_less(self) {
            high
        } else {
            self
        }
    }

    /// `self == 0.0`, for either zero.
    pub fn is_zero(self) -> (r: bool)
        ensures
            r == (!self.nan() && self.rank() == 0),
    {
        !self.is_nan() && self.standing() == 0
    }
}

/// A number that was clamped lies between the bounds, and clamping it again
/// changes nothing.
pub proof fn clamped_numbers_are_bounded(x: Double, low: Double, high: Double)
    requires
        low.le(high),
    ensures
        !x.nan() ==> low.le(x.within(low, high)) && x.within(low, high).le(high),
        x.nan() ==> x.within(low, high) == x,
        x.within(low, high).within(low, high) == x.within(low, high),
{
}

/// Numbers other than NaNs are ordered: of two, exactly one is smaller or they
/// have the same rank.
pub proof fn numbers_are_ordered(a: Double, b: Double, c: Double)
    requires
        !a.nan(),
        !b.nan(),
        !c.nan(),
    ensures
        a.lt(b) || b.lt(a) || a.rank() == b.rank(),
        !(a.lt(b) && b.lt(a)),
        a.le(b) <==> !b.lt(a),
        a.le(b) && b.le(c) ==> a.le(c),
{
}

/// Two doubles compare as their bits say: those without a sign by their bits, those
/// with one the other way round, and one with a sign is below one without, but for the
/// two zeros. What lies beyond infinity is no number and compares with nothing.
pub proof fn numbers_compare_as_their_bits(a: Double, b: Double)
    ensures
        a.nan() <==> 0x7FF0_0000_0000_0000 < a.bits < 0x8000_0000_0000_0000 || a.bits
            > 0xFFF0_0000_0000_0000,
        a.nan() || b.nan() ==> !a.lt(b) && !a.le(b),
        !a.nan() && !b.nan() && a.bits < 0x8000_0000_0000_0000 && b.bits < 0x8000_0000_0000_0000
            ==> (a.lt(b) <==> a.bits < b.bits) && (a.le(b) <==> a.bits <= b.bits),
        !a.nan() && !b.nan() && a.bits >= 0x8000_0000_0000_0000 && b.bits >= 0x8000_0000_0000_0000
            ==> (a.lt(b) <==> b.bits < a.bits) && (a.le(b) <==> b.bits <= a.bits),
        !a.nan() && !b.nan() && a.bits >= 0x8000_0000_0000_0000 && b.bits < 0x8000_0000_0000_0000
            ==> a.le(b) && !b.lt(a) && (a.lt(b) <==> a.bits != 0x8000_0000_0000_0000 || b.bits
            != 0) && (b.le(a) <==> a.bits == 0x8000_0000_0000_0000 && b.bits == 0),
        !a.nan() ==> (a.rank() == 0 <==> a.bits == 0 || a.bits == 0x8000_0000_0000_0000),
        Double::zero().bits == 0,
{
}

/// Clamping changes only what lies outside the bounds, and takes it to the bound that
/// it lies beyond.
pub proof fn clamping_keeps_what_lies_between(x: Double, low: Double, high: Double)
    requires
        low.le(high),
    ensures
        low.le(x) && x.le(high) ==> x.within(low, high) == x,
        x.lt(low) ==> x.within(low, high) == low,
        high.lt(x) ==> x.within(low, high) == high,
{
}

} // verus!

//! Binary32 settings held by their IEEE-754 bit patterns, with the
//! comparisons the settings checks need, decided on the encoding.
use vstd::prelude::*;

verus! {

/// An IEEE-754 binary32 value, held by its bit pattern.
#[derive(Clone, Copy, Debug, PartialEq, Eq, Structural)]
pub struct F32Bits(pub u32);

/// The bits below the sign: exponent and mantissa.
pub open spec fn magnitude(x: F32Bits) -> int {
    x.0 as int % 0x8000_0000
}

/// The sign bit is set (negative values and negative zero).
pub open spec fn sign_set(x: F32Bits) -> bool {
    x.0 >= 0x8000_0000
}

/// All exponent bits set and a nonzero mantissa.
pub open spec fn spec_is_nan(x: F32Bits) -> bool {
    magnitude(x) > 0x7F80_0000
}

/// Neither infinite nor NaN.
pub open spec fn spec_is_finite(x: F32Bits) -> bool {
    magnitude(x) < 0x7F80_0000
}

/// Floating-point `x == y`: NaN equals nothing, the two zeros are equal.
pub open spec fn spec_eq(x: F32Bits, y: F32Bits) -> bool {
    &&& !spec_is_nan(x)
    &&& !spec_is_nan(y)
    &&& (x.0 == y.0 || (magnitude(x) == 0 && magnitude(y) == 0))
}

/// Floating-point `x < y`: false when either is NaN; zeros are equal;
/// positive values order as their encodings, negative ones in reverse.
pub open spec fn spec_lt(x: F32Bits, y: F32Bits) -> bool {
    &&& !spec_is_nan(x)
    &&& !spec_is_nan(y)
    &&& !(magnitude(x) == 0 && magnitude(y) == 0)
    &&& if sign_set(x) && !sign_set(y) {
        true
    } else if !sign_set(x) && sign_set(y) {
        false
    } else if !sign_set(x) {
        x.0 < y.0
    } else {
        magnitude(x) > magnitude(y)
    }
}

/// Floating-point `x <= y`.
pub open spec fn spec_le(x: F32Bits, y: F32Bits) -> bool {
    spec_lt(x, y) || spec_eq(x, y)
}

/// `0.0`.
pub open spec fn zero() -> F32Bits {
    F32Bits(0)
}

/// `1.0`.
pub open spec fn one() -> F32Bits {
    F32Bits(0x3F80_0000)
}

impl F32Bits {
    /// `0.0`.
    pub fn zero() -> (x: F32Bits)
        ensures
            x == zero(),
    {
        F32Bits(0)
    }

    /// `1.0`.
    pub fn one() -> (x: F32Bits)
        ensures
            x == one(),
    {
        F32Bits(0x3F80_0000)
    }

    /// Neither infinite nor NaN.
    pub fn is_finite(self) -> (b: bool)
        ensures
            b == spec_is_finite(self),
    {
        self.0 % 0x8000_0000 < 0x7F80_0000
    }

    /// Not a number.
    pub fn is_nan(self) -> (b: bool)
        ensures
            b == spec_is_nan(self),
    {
        self.0 % 0x8000_0000 > 0x7F80_0000
    }

    /// Floating-point `self == other`.
    pub fn float_eq(self, other: F32Bits) -> (b: bool)
        ensures
            b == spec_eq(self, other),
    {
        !self.is_nan() && !other.is_nan() && (self.0 == other.0 || (self.0 % 0x8000_0000 == 0
            && other.0 % 0x8000_0000 == 0))
    }

    /// Floating-point `self < other`.
    pub fn float_lt(self, other: F32Bits) -> (b: bool)
        ensures
            b == spec_lt(self, other),
    {
        if self.is_nan() || other.is_nan() {
            return false;
        }
        let (mx, my) = (self.0 % 0x8000_0000, other.0 % 0x8000_0000);
        if mx == 0 && my == 0 {
            return false;
        }
        let (sx, sy) = (self.0 >= 0x8000_0000, other.0 >= 0x8000_0000);
        if sx && !sy {
            true
        } else if !sx && sy {
            false
        } else if !sx {
            self.0 < other.0
        } else {
            mx > my
        }
    }

    /// Floating-point `self <= other`.
    pub fn float_le(self, other: F32Bits) -> (b: bool)
        ensures
            b == spec_le(self, other),
    {
        self.float_lt(other) || self.float_eq(other)
    }
}

} // verus!

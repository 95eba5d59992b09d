//! Moisture levels: IEEE 754 binary64 values held by their bit pattern.
use vstd::prelude::*;

verus! {

/// The sign bit of a binary64 bit pattern.
pub const SIGN_BIT: u64 = 0x8000_0000_0000_0000;

/// The bit pattern of positive infinity. A pattern whose magnitude is
/// larger is a NaN.
pub const INFINITY_BITS: u64 = 0x7ff0_0000_0000_0000;

/// A moisture level: an IEEE 754 binary64 value, held by its bit pattern.
///
/// Every pattern is a level; there is no validation of sensor ranges.
#[derive(Clone, Copy, Debug)]
pub struct Level {
    pub bits: u64,
}

impl Level {
    /// The level `0.0`: the pattern with no bit set.
    pub open spec fn zero() -> Level {
        Level { bits: 0 }
    }

    /// The pattern without its sign bit.
    pub open spec fn magnitude(self) -> int {
        if self.bits >= SIGN_BIT {
            self.bits - SIGN_BIT
        } else {
            self.bits as int
        }
    }

    /// Whether the sign bit is set (true of `-0.0` and of some NaNs too).
    pub open spec fn sign_negative(self) -> bool {
        self.bits >= SIGN_BIT
    }

    /// Whether the level is a NaN: exponent all ones, fraction not zero.
    pub open spec fn spec_is_nan(self) -> bool {
        self.magnitude() > INFINITY_BITS
    }

    /// The place of a level that is not a NaN on the number line: binary64
    /// patterns are sign and magnitude, and among levels of one sign a larger
    /// magnitude is further from zero. Both zeros have rank 0.
    pub open spec fn rank(self) -> int {
        if self.sign_negative() {
            -self.magnitude()
        } else {
            self.magnitude()
        }
    }

    /// IEEE 754 `<`: false as soon as either side is a NaN.
    pub open spec fn spec_lt(self, other: Level) -> bool {
        &&& !self.spec_is_nan()
        &&& !other.spec_is_nan()
        &&& self.rank() < other.rank()
    }

    /// IEEE 754 `>=`: false as soon as either side is a NaN.
    pub open spec fn spec_ge(self, other: Level) -> bool {
        &&& !self.spec_is_nan()
        &&& !other.spec_is_nan()
        &&& self.rank() >= other.rank()
    }

    /// The level with the given bit pattern.
    pub fn from_bits(bits: u64) -> (level: Level)
        ensures
            level.bits == bits,
    {
        Level { bits }
    }

    /// The level's bit pattern.
    pub fn to_bits(self) -> (bits: u64)
        ensures
            bits == self.bits,
    {
        self.bits
    }

    /// Whether the level is a NaN.
    #[verifier::when_used_as_spec(spec_is_nan)]
    pub fn is_nan(self) -> (nan: bool)
        ensures
            nan == self.spec_is_nan(),
    {
        let magnitude: u64 = if self.bits >= SIGN_BIT {
            self.bits - SIGN_BIT
        } else {
            self.bits
        };
        magnitude > INFINITY_BITS
    }

    /// Whether `self < other` as binary64 values.
    #[verifier::when_used_as_spec(spec_lt)]
    pub fn lt(self, other: Level) -> (below: bool)
        ensures
            below == self.spec_lt(other),
    {
        if self.is_nan() || other.is_nan() {
            return false;
        }
        let negative: bool = self.bits >= SIGN_BIT;
        let other_negative: bool = other.bits >= SIGN_BIT;
        if negative {
            if other_negative {
                // both at or below zero: the larger pattern is further down
                self.bits > other.bits
            } else {
                // -0.0 is not below +0.0
                self.bits > SIGN_BIT || other.bits > 0
            }
        } else {
            if other_negative {
                false
            } else {
                self.bits < other.bits
            }
        }
    }
}

/// Of two levels neither of which is a NaN, exactly one of `<` and `>=`
/// holds. With a NaN on either side neither holds.
pub proof fn below_or_at_least(a: Level, b: Level)
    ensures
        !a.spec_is_nan() && !b.spec_is_nan() ==> (a.spec_lt(b) <==> !a.spec_ge(b)),
        a.spec_is_nan() || b.spec_is_nan() ==> !a.spec_lt(b) && !a.spec_ge(b),
{
}

} // verus!

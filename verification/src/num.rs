//! Floating-point numbers, carried and compared without arithmetic.
//!
//! A `Num` is an IEEE 754 double held by its bits. The library passes such numbers on, tells
//! finite ones from the others, and orders them. Calculating with them is left to the caller.

use vstd::prelude::*;

verus! {

/// A double, by its bits.
#[derive(Debug, Clone, Copy, PartialEq, Eq, Structural)]
pub struct Num {
    pub bits: u64,
}

/// A pair of coordinates.
#[derive(Debug, Clone, Copy, PartialEq, Eq, Structural)]
pub struct Point {
    pub x: Num,
    pub y: Num,
}

/// The bits of 0.5.
pub const HALF_BITS: u64 = 0x3fe0_0000_0000_0000;

/// The bits of 1.
pub const ONE_BITS: u64 = 0x3ff0_0000_0000_0000;

/// The bits of 2.
pub const TWO_BITS: u64 = 0x4000_0000_0000_0000;

/// The bits of 22.
pub const TWENTY_TWO_BITS: u64 = 0x4036_0000_0000_0000;

/// The weight of the sign bit.
pub const SIGN: u64 = 0x8000_0000_0000_0000;

/// The weight of the lowest exponent bit.
pub const EXPONENT_UNIT: u64 = 0x0010_0000_0000_0000;

/// How many exponents there are; the last one is that of the infinities and of what is not a
/// number.
pub const EXPONENTS: u64 = 0x800;

/// The bits without the sign.
pub open spec fn magnitude(n: Num) -> int {
    n.bits as int % SIGN as int
}

/// Whether the sign bit is set.
pub open spec fn negative(n: Num) -> bool {
    n.bits >= SIGN
}

/// Whether the number is neither infinite nor not a number.
pub open spec fn finite(n: Num) -> bool {
    magnitude(n) / EXPONENT_UNIT as int != EXPONENTS - 1
}

/// Whether it is not a number.
pub open spec fn nan(n: Num) -> bool {
    !finite(n) && magnitude(n) % EXPONENT_UNIT as int != 0
}

/// The place of a number in the order of all numbers; both zeros have the same place.
pub open spec fn rank(n: Num) -> int {
    if negative(n) {
        -magnitude(n)
    } else {
        magnitude(n)
    }
}

/// Whether `a` is less than `b`. What is not a number is neither less nor greater.
pub open spec fn less(a: Num, b: Num) -> bool {
    !nan(a) && !nan(b) && rank(a) < rank(b)
}

/// The usual text of a number that is not finite.
pub open spec fn special_text(n: Num) -> Seq<char> {
    if nan(n) {
        "NaN"@
    } else if negative(n) {
        "-inf"@
    } else {
        "inf"@
    }
}

impl Num {
    /// The number with these bits.
    pub fn new(bits: u64) -> (r: Self)
        ensures
            r == (Num { bits }),
    {
        Num { bits }
    }

    /// Whether the number is neither infinite nor not a number.
    pub fn is_finite(&self) -> (r: bool)
        ensures
            r == finite(*self),
    {
        (self.bits % SIGN) / EXPONENT_UNIT != EXPONENTS - 1
    }

    /// Whether it is not a number.
    pub fn is_nan(&self) -> (r: bool)
        ensures
            r == nan(*self),
    {
        !self.is_finite() && (self.bits % SIGN) % EXPONENT_UNIT != 0
    }

    /// Whether this number is less than the other.
    pub fn is_less(&self, other: Num) -> (r: bool)
        ensures
            r == less(*self, other),
    {
        if self.is_nan() || other.is_nan() {
            return false;
        }
        let a: u64 = self.bits % SIGN;
        let b: u64 = other.bits % SIGN;
        if self.bits >= SIGN {
            if other.bits >= SIGN {
                b < a
            } else {
                a > 0 || b > 0
            }
        } else {
            if other.bits >= SIGN {
                false
            } else {
                a < b
            }
        }
    }

    /// The usual text of a number that is not finite: `NaN`, `inf` or `-inf`.
    pub fn special(&self) -> (r: &'static str)
        requires
            !finite(*self),
        ensures
            r@ == special_text(*self),
    {
        if self.is_nan() {
            "NaN"
        } else if self.bits >= SIGN {
            "-inf"
        } else {
            "inf"
        }
    }
}

// ---- laws -----------------------------------------------------------------------------------

/// The order is a strict order.
pub proof fn law_less_is_a_strict_order(a: Num, b: Num, c: Num)
    ensures
        !less(a, a),
        less(a, b) ==> !less(b, a),
        less(a, b) && less(b, c) ==> less(a, c),
{
}

/// Any two numbers that are not equal in rank are ordered one way or the other, unless one of
/// them is not a number.
pub proof fn law_numbers_are_comparable(a: Num, b: Num)
    requires
        !nan(a),
        !nan(b),
    ensures
        less(a, b) || less(b, a) || rank(a) == rank(b),
{
}

/// A number is finite unless its exponent is the highest there is, and it is not a number if
/// there is something behind such an exponent. Of two positive numbers the one with the smaller
/// bits is less, of two negative ones that with the greater; a negative one is less than a
/// positive one, and the two zeros are alike.
pub proof fn law_numbers_by_their_bits(a: u64, b: u64)
    requires
        a <= 0x7ff0_0000_0000_0000,
        b <= 0x7ff0_0000_0000_0000,
    ensures
        finite(Num { bits: a }) <==> a < 0x7ff0_0000_0000_0000,
        !nan(Num { bits: a }),
        less(Num { bits: a }, Num { bits: b }) <==> a < b,
        less(
            Num { bits: (a + 0x8000_0000_0000_0000) as u64 },
            Num { bits: (b + 0x8000_0000_0000_0000) as u64 },
        ) <==> b < a,
        less(Num { bits: (a + 0x8000_0000_0000_0000) as u64 }, Num { bits: b }) <==> a + b > 0,
        !less(Num { bits: a }, Num { bits: (b + 0x8000_0000_0000_0000) as u64 }),
{
}

/// What is not a number is neither less nor greater than anything.
pub proof fn law_what_is_no_number_has_no_order(a: u64, other: Num)
    requires
        0x7ff0_0000_0000_0000 < a < 0x8000_0000_0000_0000,
    ensures
        nan(Num { bits: a }),
        !less(Num { bits: a }, other),
        !less(other, Num { bits: a }),
{
}

} // verus!

//! Single-precision scalars, compared through their IEEE-754 bit patterns.
//!
//! Distances, tolerances and triangle measures reach this crate as the 32 bits
//! of a binary32 number. Nothing here does arithmetic on them: the classifier
//! only ever asks whether one scalar is smaller than another, and that question
//! has an exact answer in integers.
//!
//! A binary32 pattern is a sign bit, eight bits of exponent and 23 bits of
//! fraction. What number a pattern stands for is written down in
//! [`Scalar::value`], as a whole multiple of the smallest step, 2^-149. The
//! comparison that runs never decodes anything: it looks at the sign and at
//! the remaining 31 bits taken as one integer, the [`Scalar::key`]. That the
//! keys are in the order of the values is proved in
//! [`lemma_key_orders_values`].

use vstd::arithmetic::power2::{
    lemma_pow2_pos, lemma_pow2_strictly_increases, lemma_pow2_unfold, pow2,
};
use vstd::prelude::*;

verus! {

/// The sign bit of a binary32 pattern.
pub const SIGN_BIT: u32 = 0x8000_0000;

/// The magnitude of infinity; every larger magnitude is a NaN.
pub const INFINITY_BITS: u32 = 0x7F80_0000;

/// The weight of the leading bit that a normal number does not store: 2^23.
pub const HIDDEN_BIT: u32 = 0x0080_0000;

/// A single-precision number, held as its IEEE-754 binary32 bit pattern.
#[derive(Clone, Copy, Debug)]
pub struct Scalar(pub u32);

/// The absolute value, in steps of 2^-149, of a number whose pattern without
/// the sign bit is `magnitude`. With exponent field `e` and fraction `f` that
/// is `f` for a subnormal number and `(2^23 + f) * 2^(e - 1)` for a normal one.
/// Infinity is given the value the same rule gives it, which lies above every
/// finite number.
pub open spec fn scaled(magnitude: int) -> int {
    let exponent = magnitude / (HIDDEN_BIT as int);
    let fraction = magnitude % (HIDDEN_BIT as int);
    if exponent == 0 {
        fraction
    } else {
        (HIDDEN_BIT + fraction) * pow2((exponent - 1) as nat)
    }
}

impl Scalar {
    /// The sign bit is set.
    pub open spec fn signed(self) -> bool {
        self.0 >= SIGN_BIT
    }

    /// The pattern with its sign bit cleared.
    pub open spec fn magnitude(self) -> int {
        if self.signed() {
            self.0 - SIGN_BIT
        } else {
            self.0 as int
        }
    }

    /// The pattern is not a number.
    pub open spec fn nan(self) -> bool {
        self.magnitude() > INFINITY_BITS
    }

    /// The number the pattern stands for, in steps of 2^-149. Meaningful when
    /// `!self.nan()`.
    pub open spec fn value(self) -> int {
        if self.signed() {
            -scaled(self.magnitude())
        } else {
            scaled(self.magnitude())
        }
    }

    /// The integer that is compared in place of the value: the magnitude,
    /// negated when the sign bit is set.
    pub open spec fn key(self) -> int {
        if self.signed() {
            -self.magnitude()
        } else {
            self.magnitude()
        }
    }

    /// `self < other` as numbers: false as soon as either side is a NaN.
    pub open spec fn lt(self, other: Scalar) -> bool {
        !self.nan() && !other.nan() && self.value() < other.value()
    }

    /// `self == other` as numbers: the two zeros are equal, a NaN equals nothing.
    pub open spec fn same_value(self, other: Scalar) -> bool {
        !self.nan() && !other.nan() && self.value() == other.value()
    }

    /// The number is zero, of either sign.
    pub open spec fn zero(self) -> bool {
        !self.nan() && self.value() == 0
    }

    /// The number is greater than zero (infinity included).
    pub open spec fn positive(self) -> bool {
        !self.nan() && self.value() > 0
    }

    /// Tells whether the pattern is a NaN.
    pub fn is_nan(self) -> (r: bool)
        ensures
            r == self.nan(),
    {
        if self.0 >= SIGN_BIT {
            self.0 - SIGN_BIT > INFINITY_BITS
        } else {
            self.0 > INFINITY_BITS
        }
    }

    /// Tells whether the number is greater than zero.
    pub fn is_positive(self) -> (r: bool)
        ensures
            r == self.positive(),
    {
        proof {
            lemma_key_orders_values(self, Scalar(0));
        }
        0 < self.0 && self.0 <= INFINITY_BITS
    }

    /// Compares two scalars as numbers, strictly.
    pub fn less_than(self, other: Scalar) -> (r: bool)
        ensures
            r == self.lt(other),
    {
        if self.is_nan() || other.is_nan() {
            return false;
        }
        proof {
            lemma_key_orders_values(self, other);
        }
        let self_signed: bool = self.0 >= SIGN_BIT;
        let other_signed: bool = other.0 >= SIGN_BIT;
        if self_signed && other_signed {
            // Both at or below zero: the larger magnitude is the smaller number.
            self.0 > other.0
        } else if self_signed {
            // At or below zero against at or above zero: smaller unless both are zero.
            self.0 > SIGN_BIT || other.0 > 0
        } else if other_signed {
            false
        } else {
            self.0 < other.0
        }
    }
}

/// A larger magnitude stands for a number farther from zero.
pub proof fn lemma_scaled_increases(smaller: int, larger: int)
    requires
        0 <= smaller < larger,
    ensures
        0 <= scaled(smaller) < scaled(larger),
{
    let hidden = HIDDEN_BIT as int;
    let (e1, f1) = (smaller / hidden, smaller % hidden);
    let (e2, f2) = (larger / hidden, larger % hidden);
    if e1 > 0 {
        lemma_pow2_pos((e1 - 1) as nat);
        let p1 = pow2((e1 - 1) as nat) as int;
        assert(0 < (hidden + f1) * p1 < 2 * hidden * p1) by (nonlinear_arith)
            requires
                0 <= f1 < hidden,
                p1 > 0,
        ;
    }
    if e1 == e2 {
        if e1 > 0 {
            let p = pow2((e1 - 1) as nat) as int;
            assert((hidden + f1) * p < (hidden + f2) * p) by (nonlinear_arith)
                requires
                    f1 < f2,
                    p > 0,
            ;
        }
    } else {
        lemma_pow2_pos((e2 - 1) as nat);
        let p2 = pow2((e2 - 1) as nat) as int;
        assert(hidden <= hidden * p2 <= (hidden + f2) * p2) by (nonlinear_arith)
            requires
                0 <= f2,
                hidden > 0,
                p2 >= 1,
        ;
        if e1 > 0 {
            // The whole binade of `smaller` lies below the start of the next one.
            let p1 = pow2((e1 - 1) as nat) as int;
            lemma_pow2_unfold(e1 as nat);
            if e1 < e2 - 1 {
                lemma_pow2_strictly_increases(e1 as nat, (e2 - 1) as nat);
            }
            assert(2 * hidden * p1 <= hidden * p2) by (nonlinear_arith)
                requires
                    2 * p1 <= p2,
                    hidden > 0,
            ;
        }
    }
}

/// The keys of two numbers are in the order of the numbers themselves, and
/// are equal only for equal numbers. This is what lets [`Scalar::less_than`]
/// compare bit patterns.
pub proof fn lemma_key_orders_values(a: Scalar, b: Scalar)
    ensures
        a.key() < b.key() <==> a.value() < b.value(),
        a.key() == b.key() <==> a.value() == b.value(),
{
    let (ma, mb) = (a.magnitude(), b.magnitude());
    assert(scaled(0) == 0);
    if ma < mb {
        lemma_scaled_increases(ma, mb);
    } else if mb < ma {
        lemma_scaled_increases(mb, ma);
    }
    if 0 < ma {
        lemma_scaled_increases(0, ma);
    }
    if 0 < mb {
        lemma_scaled_increases(0, mb);
    }
}

/// `lt` is a strict order on the scalars that are numbers: nothing is below
/// itself, two numbers are never below each other, and below carries over.
/// Two numbers of which neither is below the other have the same value.
pub proof fn lemma_lt_is_a_strict_order(a: Scalar, b: Scalar, c: Scalar)
    ensures
        !a.lt(a),
        a.lt(b) ==> !b.lt(a),
        a.lt(b) && b.lt(c) ==> a.lt(c),
        !a.nan() && !b.nan() ==> a.lt(b) || b.lt(a) || a.same_value(b),
{
}

} // verus!

//! Binary64 values by bit pattern: classification, sign and order.

use vstd::arithmetic::div_mod::{
    lemma_basic_div, lemma_div_by_multiple, lemma_div_multiples_vanish_quotient,
};
use vstd::arithmetic::power2::{
    lemma2_to64, lemma2_to64_rest, lemma_pow2_adds, lemma_pow2_pos, lemma_pow2_strictly_increases,
    lemma_pow2_unfold, pow2,
};
use vstd::bits::{lemma_u64_shl_is_mul, lemma_u64_shr_is_div};
use vstd::prelude::*;

verus! {

/// Bit pattern of the sign bit.
pub const SIGN_BIT: u64 = 0x8000_0000_0000_0000;

/// Magnitude bits of positive infinity; every larger magnitude is a NaN.
pub const INFINITY_BITS: u64 = 0x7FF0_0000_0000_0000;

/// The weight of the lowest bit of the exponent field, `2^52`: a pattern is
/// its exponent field times this, plus its fraction field.
pub const EXPONENT_UNIT: u64 = 0x10_0000_0000_0000;

/// The exponent field of the numbers whose lowest fraction bit weighs one.
pub const UNIT_EXPONENT: u64 = 1075;

/// Bit pattern of `1.0`.
pub const ONE_BITS: u64 = 0x3FF0_0000_0000_0000;

/// Bit pattern of the quiet NaN that stands for "no value".
pub const NAN_BITS: u64 = 0x7FF8_0000_0000_0000;

/// A binary64 number, held as its IEEE-754 bit pattern.
///
/// `==` on `Scalar` compares bit patterns; the numeric comparisons are
/// [`Scalar::lt`] and [`Scalar::le`].
#[derive(Clone, Copy, Debug, PartialEq, Eq, Structural)]
pub struct Scalar {
    pub bits: u64,
}

impl Scalar {
    /// True when the sign bit is set.
    pub open spec fn sign(self) -> bool {
        self.bits >= SIGN_BIT
    }

    /// The pattern without its sign bit.
    pub open spec fn magnitude(self) -> int {
        if self.bits >= SIGN_BIT {
            self.bits - SIGN_BIT
        } else {
            self.bits as int
        }
    }

    /// True when the pattern encodes no number.
    pub open spec fn nan(self) -> bool {
        self.magnitude() > INFINITY_BITS
    }

    /// The exponent field of the pattern.
    pub open spec fn exponent(self) -> int {
        self.magnitude() / (EXPONENT_UNIT as int)
    }

    /// The significand of the number as a whole number: the fraction field,
    /// with the leading one that every exponent but the lowest implies.
    pub open spec fn significand(self) -> int {
        if self.exponent() == 0 {
            self.magnitude() % (EXPONENT_UNIT as int)
        } else {
            EXPONENT_UNIT + self.magnitude() % (EXPONENT_UNIT as int)
        }
    }

    /// The magnitude of the number in units of `2^-1074`, the smallest
    /// binary64 number: a whole number. Infinity counts as `2^1024`.
    pub open spec fn scaled(self) -> int {
        if self.exponent() == 0 {
            self.significand()
        } else {
            self.significand() * pow2((self.exponent() - 1) as nat)
        }
    }

    /// The number in units of `2^-1074`, with its sign.
    pub open spec fn value(self) -> int {
        if self.sign() {
            -self.scaled()
        } else {
            self.scaled()
        }
    }

    /// The magnitude of a number, rounded down to a whole number: the
    /// significand times two to the power of the exponent less 1075.
    pub open spec fn whole(self) -> int {
        if self.exponent() >= UNIT_EXPONENT {
            self.significand() * pow2((self.exponent() - UNIT_EXPONENT) as nat)
        } else {
            self.significand() / (pow2((UNIT_EXPONENT - self.exponent()) as nat) as int)
        }
    }

    /// The index that the number names: the number rounded toward zero, but
    /// zero for a negative number and for a NaN, and the largest index for a
    /// number beyond it.
    pub open spec fn index(self) -> int {
        if self.nan() || self.sign() {
            0
        } else if self.whole() > usize::MAX {
            usize::MAX as int
        } else {
            self.whole()
        }
    }

    /// Position of the number on the line of all binary64 numbers: numbers
    /// compare as their ranks do, and both zeros have rank 0.
    pub open spec fn rank(self) -> int {
        if self.sign() {
            -self.magnitude()
        } else {
            self.magnitude()
        }
    }

    /// Numeric `<`: false as soon as one side is a NaN.
    pub open spec fn less(self, other: Scalar) -> bool {
        !self.nan() && !other.nan() && self.rank() < other.rank()
    }

    /// Numeric `<=`: false as soon as one side is a NaN.
    pub open spec fn at_most(self, other: Scalar) -> bool {
        !self.nan() && !other.nan() && self.rank() <= other.rank()
    }

    /// The number with its sign bit flipped.
    pub open spec fn negated(self) -> Scalar {
        if self.bits >= SIGN_BIT {
            Scalar { bits: (self.bits - SIGN_BIT) as u64 }
        } else {
            Scalar { bits: (self.bits + SIGN_BIT) as u64 }
        }
    }

    /// The number with its sign bit cleared.
    pub open spec fn absolute(self) -> Scalar {
        Scalar { bits: self.magnitude() as u64 }
    }

    pub open spec fn zero_value() -> Scalar {
        Scalar { bits: 0 }
    }

    pub open spec fn one_value() -> Scalar {
        Scalar { bits: ONE_BITS }
    }

    pub open spec fn nan_value() -> Scalar {
        Scalar { bits: NAN_BITS }
    }

    pub fn from_bits(bits: u64) -> (r: Scalar)
        ensures
            r.bits == bits,
    {
        Scalar { bits }
    }

    pub fn to_bits(self) -> (bits: u64)
        ensures
            bits == self.bits,
    {
        self.bits
    }

    /// Positive zero.
    pub fn zero() -> (r: Scalar)
        ensures
            r == Scalar::zero_value(),
    {
        Scalar { bits: 0 }
    }

    /// The number one.
    pub fn one() -> (r: Scalar)
        ensures
            r == Scalar::one_value(),
    {
        Scalar { bits: ONE_BITS }
    }

    /// The marker for "no value".
    pub fn nan_marker() -> (r: Scalar)
        ensures
            r == Scalar::nan_value(),
            r.nan(),
    {
        Scalar { bits: NAN_BITS }
    }

    fn magnitude_bits(self) -> (m: u64)
        ensures
            m == self.magnitude(),
            m < SIGN_BIT,
    {
        if self.bits >= SIGN_BIT {
            self.bits - SIGN_BIT
        } else {
            self.bits
        }
    }

    pub fn is_nan(self) -> (b: bool)
        ensures
            b == self.nan(),
    {
        self.magnitude_bits() > INFINITY_BITS
    }

    pub fn is_infinite(self) -> (b: bool)
        ensures
            b == (self.magnitude() == INFINITY_BITS),
    {
        self.magnitude_bits() == INFINITY_BITS
    }

    /// Flips the sign; a NaN stays a NaN.
    pub fn neg(self) -> (r: Scalar)
        ensures
            r == self.negated(),
    {
        if self.bits >= SIGN_BIT {
            Scalar { bits: self.bits - SIGN_BIT }
        } else {
            Scalar { bits: self.bits + SIGN_BIT }
        }
    }

    /// Clears the sign.
    pub fn abs(self) -> (r: Scalar)
        ensures
            r == self.absolute(),
    {
        Scalar { bits: self.magnitude_bits() }
    }

    fn rank_value(self) -> (k: i64)
        ensures
            k == self.rank(),
    {
        let m: u64 = self.magnitude_bits();
        if self.bits >= SIGN_BIT {
            -(m as i64)
        } else {
            m as i64
        }
    }

    /// Numeric `self < other`.
    pub fn lt(self, other: Scalar) -> (b: bool)
        ensures
            b == self.less(other),
    {
        !self.is_nan() && !other.is_nan() && self.rank_value() < other.rank_value()
    }

    /// Numeric `self <= other`.
    pub fn le(self, other: Scalar) -> (b: bool)
        ensures
            b == self.at_most(other),
    {
        !self.is_nan() && !other.is_nan() && self.rank_value() <= other.rank_value()
    }

    /// Numeric `self > other`.
    pub fn gt(self, other: Scalar) -> (b: bool)
        ensures
            b == other.less(self),
    {
        other.lt(self)
    }

    /// The index that the number names; see [`Scalar::index`].
    pub fn to_index(self) -> (index: usize)
        ensures
            index == self.index(),
    {
        if self.is_nan() || self.bits >= SIGN_BIT {
            return 0;
        }
        let exponent: u64 = self.bits / EXPONENT_UNIT;
        let fraction: u64 = self.bits % EXPONENT_UNIT;
        proof {
            lemma2_to64();
            lemma2_to64_rest();
        }
        if exponent < 1023 {
            proof {
                let shift = (UNIT_EXPONENT - exponent) as nat;
                if shift > 53 {
                    lemma_pow2_strictly_increases(53, shift);
                }
                lemma_basic_div(self.significand(), pow2(shift) as int);
            }
            return 0;
        }
        let significand: u64 = EXPONENT_UNIT + fraction;
        if exponent >= UNIT_EXPONENT + 12 {
            proof {
                let shift = (exponent - UNIT_EXPONENT) as nat;
                if shift > 12 {
                    lemma_pow2_strictly_increases(12, shift);
                }
                assert(significand * pow2(shift) >= 0x10_0000_0000_0000 * 0x1000) by (nonlinear_arith)
                    requires
                        significand >= 0x10_0000_0000_0000,
                        pow2(shift) >= 0x1000,
                ;
            }
            return usize::MAX;
        }
        let whole: u64 = if exponent >= UNIT_EXPONENT {
            let shift: u64 = exponent - UNIT_EXPONENT;
            proof {
                if shift < 11 {
                    lemma_pow2_strictly_increases(shift as nat, 11);
                }
                assert(significand * pow2(shift as nat) <= 0x1F_FFFF_FFFF_FFFF * 0x800) by (nonlinear_arith)
                    requires
                        significand <= 0x1F_FFFF_FFFF_FFFF,
                        pow2(shift as nat) <= 0x800,
                ;
                lemma_u64_shl_is_mul(significand, shift);
            }
            significand << shift
        } else {
            let shift: u64 = UNIT_EXPONENT - exponent;
            proof {
                lemma_u64_shr_is_div(significand, shift);
            }
            significand >> shift
        };
        if whole > usize::MAX as u64 {
            usize::MAX
        } else {
            whole as usize
        }
    }

    /// Negating twice gives the pattern back; negation mirrors the rank and
    /// the value and keeps the magnitude, and the absolute value is the
    /// value without its sign.
    pub proof fn negation_is_involution(self)
        ensures
            self.negated().negated() == self,
            self.negated().magnitude() == self.magnitude(),
            self.negated().rank() == -self.rank(),
            self.negated().nan() == self.nan(),
            self.negated().sign() != self.sign(),
            self.negated().value() == -self.value(),
            self.absolute().value() == if self.value() < 0 {
                -self.value()
            } else {
                self.value()
            },
    {
        assert(self.negated().magnitude() == self.magnitude());
        assert(self.absolute().magnitude() == self.magnitude());
        assert(self.scaled() >= 0) by {
            lemma_pow2_pos((self.exponent() - 1) as nat);
            assert(self.significand() * pow2((self.exponent() - 1) as nat) >= 0) by (nonlinear_arith)
                requires
                    self.significand() >= 0,
                    pow2((self.exponent() - 1) as nat) > 0,
            ;
        }
    }

    /// Of two magnitudes with exponent fields in order, the one with the
    /// smaller exponent field is the smaller number.
    proof fn smaller_exponent_is_smaller(a: Scalar, b: Scalar)
        requires
            a.exponent() < b.exponent(),
        ensures
            a.scaled() < b.scaled(),
    {
        let unit = EXPONENT_UNIT as int;
        let high = pow2((b.exponent() - 1) as nat) as int;
        lemma_pow2_pos((b.exponent() - 1) as nat);
        assert(unit <= b.significand());
        assert(unit * high <= b.significand() * high) by (nonlinear_arith)
            requires
                unit <= b.significand(),
                high > 0,
        ;
        if a.exponent() == 0 {
            assert(a.scaled() < unit);
            assert(unit <= unit * high) by (nonlinear_arith)
                requires
                    high >= 1,
                    unit > 0,
            ;
        } else {
            let low = pow2((a.exponent() - 1) as nat) as int;
            let next = pow2(a.exponent() as nat) as int;
            lemma_pow2_pos((a.exponent() - 1) as nat);
            lemma_pow2_unfold(a.exponent() as nat);
            if a.exponent() < b.exponent() - 1 {
                lemma_pow2_strictly_increases(a.exponent() as nat, (b.exponent() - 1) as nat);
            }
            assert(next <= high);
            assert(a.significand() * low < 2 * unit * low) by (nonlinear_arith)
                requires
                    a.significand() < 2 * unit,
                    low > 0,
            ;
            assert(2 * unit * low == unit * next) by (nonlinear_arith)
                requires
                    next == 2 * low,
            ;
            assert(unit * next <= unit * high) by (nonlinear_arith)
                requires
                    next <= high,
                    unit > 0,
            ;
        }
    }

    /// The order of the bit patterns is the order of the numbers they
    /// encode: of two magnitudes, the smaller pattern is the smaller number,
    /// and only equal patterns are equal numbers.
    pub proof fn pattern_order_is_numeric(a: Scalar, b: Scalar)
        ensures
            a.magnitude() < b.magnitude() <==> a.scaled() < b.scaled(),
            a.magnitude() == b.magnitude() <==> a.scaled() == b.scaled(),
    {
        let unit = EXPONENT_UNIT as int;
        if a.exponent() < b.exponent() {
            Self::smaller_exponent_is_smaller(a, b);
        } else if b.exponent() < a.exponent() {
            Self::smaller_exponent_is_smaller(b, a);
        } else {
            assert(a.magnitude() - b.magnitude() == a.significand() - b.significand());
            if a.exponent() > 0 {
                let scale = pow2((a.exponent() - 1) as nat) as int;
                lemma_pow2_pos((a.exponent() - 1) as nat);
                assert(a.significand() < b.significand() ==> a.significand() * scale
                    < b.significand() * scale) by (nonlinear_arith)
                    requires
                        scale > 0,
                ;
                assert(b.significand() < a.significand() ==> b.significand() * scale
                    < a.significand() * scale) by (nonlinear_arith)
                    requires
                        scale > 0,
                ;
            }
        }
    }

    /// The whole part of a number is its magnitude rounded down: the
    /// magnitude in units of `2^-1074`, divided by `2^1074`.
    pub proof fn whole_is_rounded_down(self)
        ensures
            self.whole() == self.scaled() / (pow2(1074) as int),
    {
        let e = self.exponent();
        let m = self.significand();
        lemma_pow2_pos(1074);
        lemma2_to64();
        lemma2_to64_rest();
        if e == 0 {
            lemma_pow2_strictly_increases(52, 1074);
            lemma_pow2_strictly_increases(52, 1075);
            lemma_basic_div(m, pow2(1074) as int);
            lemma_basic_div(m, pow2(1075) as int);
        } else if e >= UNIT_EXPONENT {
            let rest = (e - UNIT_EXPONENT) as nat;
            lemma_pow2_adds(rest, 1074);
            lemma_pow2_pos(rest);
            assert(m * (pow2(rest) * pow2(1074)) == (m * pow2(rest)) * pow2(1074))
                by (nonlinear_arith);
            assert(0 <= m * pow2(rest)) by (nonlinear_arith)
                requires
                    0 <= m,
                    0 < pow2(rest),
            ;
            lemma_div_by_multiple(m * pow2(rest), pow2(1074) as int);
        } else {
            let low = (e - 1) as nat;
            let cut = (UNIT_EXPONENT - e) as nat;
            lemma_pow2_adds(low, cut);
            lemma_pow2_pos(low);
            lemma_pow2_pos(cut);
            lemma_div_multiples_vanish_quotient(pow2(low) as int, m, pow2(cut) as int);
            assert(pow2(low) * m == m * pow2(low)) by (nonlinear_arith);
        }
    }

    /// `<` and `<=` compare the numbers that the patterns encode, and both
    /// zeros are the number zero.
    pub proof fn comparisons_are_numeric(a: Scalar, b: Scalar)
        requires
            !a.nan(),
            !b.nan(),
        ensures
            a.less(b) <==> a.value() < b.value(),
            a.at_most(b) <==> a.value() <= b.value(),
            a.magnitude() == 0 <==> a.value() == 0,
    {
        Self::pattern_order_is_numeric(a, b);
        Self::pattern_order_is_numeric(a, Scalar { bits: 0 });
        Self::pattern_order_is_numeric(b, Scalar { bits: 0 });
        assert(Scalar { bits: 0 }.scaled() == 0);
    }

    /// On numbers, `<` is a strict order that agrees with `<=`.
    pub proof fn order_laws(a: Scalar, b: Scalar, c: Scalar)
        ensures
            !a.less(a),
            a.less(b) && b.less(c) ==> a.less(c),
            a.less(b) ==> a.at_most(b) && !b.less(a),
            !a.nan() && !b.nan() ==> (a.at_most(b) <==> !b.less(a)),
            a.nan() || b.nan() ==> !a.less(b) && !a.at_most(b),
    {
    }
}

} // verus!

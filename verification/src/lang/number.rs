//! Numbers: IEEE-754 double-precision values, held as their bit patterns.
//!
//! The interpreter decides with them (is it zero, is it positive, how do two
//! of them compare) and changes their sign; sums, products and quotients are
//! computed by the host.
use vstd::prelude::*;
use vstd::arithmetic::mul::lemma_mul_strict_inequality;
use vstd::arithmetic::power2::{
    lemma2_to64,
    lemma_pow2_pos,
    lemma_pow2_strictly_increases,
    lemma_pow2_unfold,
    pow2,
};

verus! {

/// The bit that holds the sign.
pub const SIGN: u64 = 0x8000_0000_0000_0000;

/// The magnitude of positive infinity; greater magnitudes are not numbers.
pub const INFINITY: u64 = 0x7ff0_0000_0000_0000;

/// The weight of the leading bit of a significand, which the bits of a
/// normal number leave out: two to the power of 52.
pub const HIDDEN: u64 = 0x0010_0000_0000_0000;

/// A double-precision number, as its bit pattern.
#[derive(Debug, Clone, Copy, PartialEq, Eq, Structural)]
pub struct Number {
    pub bits: u64,
}

impl Number {
    /// Whether the sign bit is set.
    pub open spec fn negative(self) -> bool {
        self.bits >= SIGN
    }

    /// The bits without the sign: exponent and fraction.
    pub open spec fn magnitude(self) -> int {
        if self.bits >= SIGN {
            self.bits - SIGN
        } else {
            self.bits as int
        }
    }

    /// The exponent field: the upper eleven bits of the magnitude.
    pub open spec fn exponent(self) -> int {
        self.magnitude() / (HIDDEN as int)
    }

    /// The fraction field: the lower 52 bits of the magnitude.
    pub open spec fn fraction(self) -> int {
        self.magnitude() % (HIDDEN as int)
    }

    /// The significand: the fraction, with the leading bit before it unless
    /// the exponent field is zero.
    pub open spec fn significand(self) -> int {
        if self.exponent() == 0 {
            self.fraction()
        } else {
            HIDDEN + self.fraction()
        }
    }

    /// The power of two that the significand is multiplied by, counted
    /// from that of the smallest numbers.
    pub open spec fn scale(self) -> nat {
        if self.exponent() == 0 {
            0
        } else {
            (self.exponent() - 1) as nat
        }
    }

    /// The absolute value of the number, counted in units of the smallest
    /// positive double: the significand times two to the power of the
    /// scale. The infinities count as two to the power of 1024.
    pub open spec fn units(self) -> int {
        self.significand() * pow2(self.scale())
    }

    /// The value of the number, in the same units.
    pub open spec fn value(self) -> int {
        if self.negative() {
            -self.units()
        } else {
            self.units()
        }
    }

    /// Whether the bits hold no number (NaN).
    pub open spec fn nan(self) -> bool {
        self.magnitude() > INFINITY
    }

    /// An integer that orders numbers as their values are ordered: the
    /// magnitude, counted downwards for negative numbers. Both zeros have
    /// rank zero.
    pub open spec fn rank(self) -> int {
        if self.negative() {
            -self.magnitude()
        } else {
            self.magnitude()
        }
    }

    /// `self == other` as doubles compare: never true of a NaN.
    pub open spec fn same(self, other: Number) -> bool {
        !self.nan() && !other.nan() && self.rank() == other.rank()
    }

    /// `self < other` as doubles compare: never true of a NaN.
    pub open spec fn less(self, other: Number) -> bool {
        !self.nan() && !other.nan() && self.rank() < other.rank()
    }

    /// `self == 0.0`: positive or negative zero.
    pub open spec fn zero(self) -> bool {
        self.magnitude() == 0
    }

    /// `self > 0.0`.
    pub open spec fn positive(self) -> bool {
        !self.nan() && self.rank() > 0
    }

    /// The number with the opposite sign.
    pub open spec fn opposite(self) -> Number {
        if self.bits >= SIGN {
            Number { bits: (self.bits - SIGN) as u64 }
        } else {
            Number { bits: (self.bits + SIGN) as u64 }
        }
    }

    /// The number with the given bit pattern.
    pub fn from_bits(bits: u64) -> (r: Self)
        ensures
            r.bits == bits,
    {
        Number { bits }
    }

    /// The bit pattern of the number.
    pub fn to_bits(&self) -> (r: u64)
        ensures
            r == self.bits,
    {
        self.bits
    }

    /// The rank of the number.
    fn key(&self) -> (r: i128)
        ensures
            r == self.rank(),
    {
        if self.bits >= SIGN {
            let m: u64 = self.bits - SIGN;
            let k: i128 = 0 - (m as i128);
            k
        } else {
            self.bits as i128
        }
    }

    /// Whether the bits hold no number.
    pub fn is_nan(&self) -> (r: bool)
        ensures
            r == self.nan(),
    {
        if self.bits >= SIGN {
            self.bits - SIGN > INFINITY
        } else {
            self.bits > INFINITY
        }
    }

    /// Whether the number is zero, positive or negative.
    pub fn is_zero(&self) -> (r: bool)
        ensures
            r == self.zero(),
    {
        self.bits == 0 || self.bits == SIGN
    }

    /// Whether the number is greater than zero.
    pub fn is_positive(&self) -> (r: bool)
        ensures
            r == self.positive(),
    {
        !self.is_nan() && self.key() > 0
    }

    /// Whether the two numbers are equal, as doubles compare.
    pub fn equals(&self, other: &Number) -> (r: bool)
        ensures
            r == self.same(*other),
    {
        !self.is_nan() && !other.is_nan() && self.key() == other.key()
    }

    /// Whether `self` is less than `other`, as doubles compare.
    pub fn less_than(&self, other: &Number) -> (r: bool)
        ensures
            r == self.less(*other),
    {
        !self.is_nan() && !other.is_nan() && self.key() < other.key()
    }

    /// The number with the opposite sign.
    pub fn negate(&self) -> (r: Number)
        ensures
            r == self.opposite(),
    {
        if self.bits >= SIGN {
            Number { bits: self.bits - SIGN }
        } else {
            Number { bits: self.bits + SIGN }
        }
    }
}

/// Changing the sign twice gives the number back, and changes neither
/// whether it is a number nor whether it is zero.
pub proof fn lemma_opposite(n: Number)
    ensures
        n.opposite().opposite() == n,
        n.opposite().nan() == n.nan(),
        n.opposite().zero() == n.zero(),
        n.opposite().rank() == -n.rank(),
{
}

/// Of two numbers exactly one of "less", "same" and "greater" holds, unless
/// one of them is a NaN, of which none holds.
pub proof fn lemma_trichotomy(a: Number, b: Number)
    ensures
        a.nan() || b.nan() ==> !a.less(b) && !a.same(b) && !b.less(a),
        !a.nan() && !b.nan() ==> (a.less(b) && !a.same(b) && !b.less(a)) || (!a.less(b) && a.same(b)
            && !b.less(a)) || (!a.less(b) && !a.same(b) && b.less(a)),
{
}


/// Of two magnitudes the greater stands for the greater absolute value.
pub proof fn lemma_units_increase(a: Number, b: Number)
    requires
        a.magnitude() < b.magnitude(),
    ensures
        0 <= a.units() < b.units(),
{
    let h = HIDDEN as int;
    let (ea, fa, eb, fb) = (a.exponent(), a.fraction(), b.exponent(), b.fraction());
    let (pa, pb) = (pow2(a.scale()) as int, pow2(b.scale()) as int);
    lemma_pow2_pos(a.scale());
    lemma_pow2_pos(b.scale());
    assert(a.significand() >= 0 && b.significand() >= 0);
    assert(a.units() >= 0) by (nonlinear_arith)
        requires
            a.units() == a.significand() * pa,
            a.significand() >= 0,
            pa > 0,
    ;
    if ea == eb {
        assert(a.significand() < b.significand());
        lemma_mul_strict_inequality(a.significand(), b.significand(), pa);
        assert(a.units() < b.units()) by (nonlinear_arith)
            requires
                a.units() == a.significand() * pa,
                b.units() == b.significand() * pa,
                a.significand() * pa < b.significand() * pa,
        ;
    } else {
        assert(ea < eb);
        assert(b.significand() >= h);
        assert(b.units() >= h * pb) by (nonlinear_arith)
            requires
                b.units() == b.significand() * pb,
                b.significand() >= h,
                pb > 0,
        ;
        if ea == 0 {
            assert(pa == 1) by {
                lemma2_to64();
            }
            assert(h * pb >= h) by (nonlinear_arith)
                requires
                    pb >= 1,
                    h > 0,
            ;
            assert(a.units() == a.significand()) by (nonlinear_arith)
                requires
                    a.units() == a.significand() * pa,
                    pa == 1,
            ;
        } else {
            lemma_pow2_unfold((a.scale() + 1) as nat);
            let next = pow2((a.scale() + 1) as nat) as int;
            assert(next == 2 * pa);
            if a.scale() + 1 < b.scale() {
                lemma_pow2_strictly_increases((a.scale() + 1) as nat, b.scale());
            }
            assert(next <= pb);
            assert(a.units() < h * next) by (nonlinear_arith)
                requires
                    a.units() == a.significand() * pa,
                    a.significand() < 2 * h,
                    next == 2 * pa,
                    pa > 0,
            ;
            assert(h * next <= h * pb) by (nonlinear_arith)
                requires
                    next <= pb,
                    h > 0,
            ;
        }
    }
}

/// The rank orders numbers as their values are ordered: one number has
/// the lower rank exactly if it has the lower value, and the same rank
/// exactly if it has the same value. So a number is zero exactly if its
/// value is zero, and the opposite of a number has the opposite value.
pub proof fn lemma_rank_orders_values(a: Number, b: Number)
    ensures
        (a.rank() < b.rank()) == (a.value() < b.value()),
        (a.rank() == b.rank()) == (a.value() == b.value()),
        a.zero() == (a.value() == 0),
        (a.rank() > 0) == (a.value() > 0),
        a.opposite().value() == -a.value(),
{
    let zero = Number { bits: 0 };
    assert(zero.significand() == 0);
    assert(zero.units() == 0) by (nonlinear_arith)
        requires
            zero.units() == zero.significand() * pow2(zero.scale()),
            zero.significand() == 0,
    ;
    let ma = Number { bits: a.magnitude() as u64 };
    let mb = Number { bits: b.magnitude() as u64 };
    assert(ma.units() == a.units() && mb.units() == b.units());
    if a.magnitude() > 0 {
        lemma_units_increase(zero, ma);
    }
    if b.magnitude() > 0 {
        lemma_units_increase(zero, mb);
    }
    if a.magnitude() < b.magnitude() {
        lemma_units_increase(ma, mb);
    }
    if b.magnitude() < a.magnitude() {
        lemma_units_increase(mb, ma);
    }
    assert(a.opposite().magnitude() == a.magnitude());
    assert(a.opposite().units() == a.units());
}

} // verus!

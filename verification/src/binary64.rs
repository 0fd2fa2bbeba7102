//! Binary64 numbers by their bit patterns: which are finite, and how they compare.
use vstd::arithmetic::power2::{lemma_pow2_pos, lemma_pow2_unfold, pow2};
use vstd::prelude::*;

verus! {

/// The bit of the sign.
pub const SIGN: u64 = 0x8000_0000_0000_0000;

/// The bit pattern of infinity.
pub const INFINITY: u64 = 0x7ff0_0000_0000_0000;

/// A number of the IEEE 754 format binary64, by its bit pattern.
#[derive(Clone, Copy, Debug, PartialEq, Eq, Structural)]
pub struct Binary64 {
    pub bits: u64,
}

/// The pattern of zero.
pub const ZERO: u64 = 0;

/// The pattern of one.
pub const ONE: u64 = 0x3ff0_0000_0000_0000;

/// The pattern of ten.
pub const TEN: u64 = 0x4024_0000_0000_0000;

/// The pattern of two to the power of fifty-three, up to which every integer is a binary64 number.
pub const EXACT_INTEGERS: u64 = 0x4340_0000_0000_0000;

/// The pattern of the least number that differs from one by at most a billionth.
pub const NEAR_ONE_LOW: u64 = 0x3fef_ffff_ff76_8fa1;

/// The pattern of the greatest number that differs from one by at most a billionth.
pub const NEAR_ONE_HIGH: u64 = 0x3ff0_0000_0044_b82f;

/// The number of a bit pattern.
#[verifier::allow_in_spec]
pub fn number(bits: u64) -> Binary64
    returns
        (Binary64 { bits }),
{
    Binary64 { bits }
}

impl DeepView for Binary64 {
    type V = Binary64;

    open spec fn deep_view(&self) -> Binary64 {
        *self
    }
}

/// The magnitude of a finite pattern without its sign, in units of two to the power of -1074.
pub open spec fn scaled(pattern: int) -> int {
    let exponent = pattern / 0x10_0000_0000_0000;
    let fraction = pattern % 0x10_0000_0000_0000;
    if exponent == 0 {
        fraction
    } else {
        (0x10_0000_0000_0000 + fraction) * pow2((exponent - 1) as nat)
    }
}

impl Binary64 {
    /// The pattern without its sign.
    pub open spec fn magnitude(self) -> int {
        if self.bits >= SIGN {
            self.bits - SIGN
        } else {
            self.bits as int
        }
    }

    pub open spec fn nan(self) -> bool {
        self.magnitude() > INFINITY
    }

    pub open spec fn finite(self) -> bool {
        self.magnitude() < INFINITY
    }

    /// Orders the numbers that are not NaN as their values; both zeros have one place.
    pub open spec fn rank(self) -> int {
        if self.bits >= SIGN {
            -self.magnitude()
        } else {
            self.magnitude()
        }
    }

    /// Orders all patterns: below zero by falling magnitude, negative zero before zero.
    pub open spec fn total_rank(self) -> int {
        if self.bits >= SIGN {
            -self.magnitude() - 1
        } else {
            self.magnitude()
        }
    }

    /// The value of a finite number in units of two to the power of -1074.
    pub open spec fn value(self) -> int {
        if self.bits >= SIGN {
            -scaled(self.magnitude())
        } else {
            scaled(self.magnitude())
        }
    }

    /// `self` is less than `other`; nothing is less than NaN or above it.
    pub open spec fn less(self, other: Binary64) -> bool {
        !self.nan() && !other.nan() && self.rank() < other.rank()
    }

    /// `self` is at most `other`.
    pub open spec fn at_most(self, other: Binary64) -> bool {
        !self.nan() && !other.nan() && self.rank() <= other.rank()
    }

    /// From zero to one.
    pub open spec fn in_unit(self) -> bool {
        number(ZERO).at_most(self) && self.at_most(number(ONE))
    }

    /// The greater of two numbers, the other one where one is NaN.
    pub open spec fn greater_of(self, other: Binary64) -> Binary64 {
        if self.nan() || self.less(other) {
            other
        } else {
            self
        }
    }

    pub fn is_finite(self) -> (r: bool)
        ensures
            r == self.finite(),
    {
        let m: u64 = if self.bits >= SIGN {
            self.bits - SIGN
        } else {
            self.bits
        };
        m < INFINITY
    }

    pub fn is_nan(self) -> (r: bool)
        ensures
            r == self.nan(),
    {
        let m: u64 = if self.bits >= SIGN {
            self.bits - SIGN
        } else {
            self.bits
        };
        m > INFINITY
    }

    /// Whether `self` is less than `other`.
    pub fn lt(self, other: Binary64) -> (r: bool)
        ensures
            r == self.less(other),
    {
        if self.is_nan() || other.is_nan() {
            return false;
        }
        if self.bits < SIGN {
            other.bits < SIGN && self.bits < other.bits
        } else if other.bits < SIGN {
            self.bits - SIGN > 0 || other.bits > 0
        } else {
            other.bits < self.bits
        }
    }

    /// Whether `self` is at most `other`.
    pub fn le(self, other: Binary64) -> (r: bool)
        ensures
            r == self.at_most(other),
    {
        !self.is_nan() && !other.is_nan() && !other.lt(self)
    }

    /// Whether the number is from zero to one.
    pub fn is_unit(self) -> (r: bool)
        ensures
            r == self.in_unit(),
    {
        number(ZERO).le(self) && self.le(number(ONE))
    }

    /// The greater of two numbers.
    pub fn max(self, other: Binary64) -> (r: Binary64)
        ensures
            r == self.greater_of(other),
    {
        if self.is_nan() || self.lt(other) {
            other
        } else {
            self
        }
    }

    /// Whether `self` comes before `other` in the order of all patterns.
    pub fn total_lt(self, other: Binary64) -> (r: bool)
        ensures
            r == (self.total_rank() < other.total_rank()),
    {
        if self.bits < SIGN {
            other.bits < SIGN && self.bits < other.bits
        } else if other.bits < SIGN {
            true
        } else {
            other.bits < self.bits
        }
    }
}

proof fn lemma_scaled_step(n: int)
    requires
        0 <= n,
    ensures
        scaled(n) < scaled(n + 1),
{
    let exponent = n / 0x10_0000_0000_0000;
    let fraction = n % 0x10_0000_0000_0000;
    if fraction + 1 < 0x10_0000_0000_0000 {
        assert((n + 1) / 0x10_0000_0000_0000 == exponent);
        assert((n + 1) % 0x10_0000_0000_0000 == fraction + 1);
        if exponent > 0 {
            let p = pow2((exponent - 1) as nat) as int;
            lemma_pow2_pos((exponent - 1) as nat);
            assert((0x10_0000_0000_0000 + fraction) * p < (0x10_0000_0000_0000 + fraction + 1) * p)
                by (nonlinear_arith)
                requires
                    p > 0,
            ;
        }
    } else {
        assert((n + 1) / 0x10_0000_0000_0000 == exponent + 1);
        assert((n + 1) % 0x10_0000_0000_0000 == 0);
        if exponent > 0 {
            let p = pow2((exponent - 1) as nat) as int;
            lemma_pow2_pos((exponent - 1) as nat);
            lemma_pow2_unfold(exponent as nat);
            assert((0x10_0000_0000_0000 + fraction) * p < 0x10_0000_0000_0000 * (2 * p))
                by (nonlinear_arith)
                requires
                    p > 0,
                    fraction < 0x10_0000_0000_0000,
            ;
        } else {
            vstd::arithmetic::power2::lemma2_to64();
        }
    }
}

proof fn lemma_scaled_grows(a: int, b: int)
    requires
        0 <= a < b,
    ensures
        scaled(a) < scaled(b),
    decreases b - a,
{
    if a + 1 < b {
        lemma_scaled_grows(a, b - 1);
    }
    lemma_scaled_step(b - 1);
}

/// Finite numbers compare as the values that their patterns stand for.
pub proof fn lemma_order_is_value_order(a: Binary64, b: Binary64)
    requires
        a.finite(),
        b.finite(),
    ensures
        a.less(b) <==> a.value() < b.value(),
        a.at_most(b) <==> a.value() <= b.value(),
{
    let x = a.magnitude();
    let y = b.magnitude();
    if x < y {
        lemma_scaled_grows(x, y);
    } else if y < x {
        lemma_scaled_grows(y, x);
    }
    if x > 0 {
        lemma_scaled_grows(0, x);
    }
    if y > 0 {
        lemma_scaled_grows(0, y);
    }
    assert(scaled(0) == 0);
}

/// Which patterns are numbers, and where zero and one stand: a number is from zero to one where its
/// value is, counted in the least step that there is.
pub proof fn lemma_unit_interval(x: Binary64)
    ensures
        x.in_unit() ==> x.finite(),
        x.finite() ==> (x.in_unit() <==> 0 <= x.value() <= number(0x3ff0_0000_0000_0000).value()),
        number(0).value() == 0,
        number(SIGN).value() == 0,
        number(SIGN).in_unit(),
        number(0x3ff0_0000_0000_0001).in_unit() == false,
        number(0x7ff8_0000_0000_0000).nan(),
        !number(INFINITY).finite() && !number(INFINITY).nan(),
{
    assert(scaled(0) == 0);
    if x.finite() {
        lemma_order_is_value_order(number(ZERO), x);
        lemma_order_is_value_order(x, number(ONE));
    }
}

/// The greater of two numbers is one of them and below neither; what is no number gives way.
pub proof fn lemma_greater_of(a: Binary64, b: Binary64)
    ensures
        a.greater_of(b) == a || a.greater_of(b) == b,
        !a.nan() && !b.nan() ==> !a.greater_of(b).less(a) && !a.greater_of(b).less(b),
        a.nan() ==> a.greater_of(b) == b,
        b.nan() ==> a.greater_of(b) == (if a.nan() {
            b
        } else {
            a
        }),
{
}

/// The order that has a place for every pattern agrees with the order of numbers, puts the negative
/// zero before the positive one, and holds no two patterns for equal.
pub proof fn lemma_total_order(a: Binary64, b: Binary64)
    ensures
        a.less(b) ==> a.total_rank() < b.total_rank(),
        number(SIGN).total_rank() < number(0).total_rank(),
        a.total_rank() == b.total_rank() ==> a == b,
{
}

} // verus!

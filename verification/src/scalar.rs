//! Doubles as the library sees them: bit patterns with an order.

use vstd::prelude::*;
use vstd::arithmetic::power2::{
    lemma2_to64, lemma2_to64_rest, lemma_pow2_adds, lemma_pow2_pos, lemma_pow2_strictly_increases,
    lemma_pow2_unfold, pow2,
};

verus! {

/// The place of the highest bit that is set in `n`: the `p` with
/// `2^p <= n < 2^(p + 1)`. It is 0 for 0.
pub open spec fn top_bit(n: nat) -> nat
    decreases n,
{
    if n < 2 {
        0
    } else {
        1 + top_bit(n / 2)
    }
}

/// The bit pattern of the double nearest to the whole number `n`, and of the
/// one with the even significand where two are equally near.
///
/// A number below `2^53` is a double itself: with `p` the place of its highest
/// bit, the exponent field holds `1023 + p` and the fraction field the rest
/// of the number, moved up to fill 52 bits. A larger number has more than 53
/// significant bits; those beyond the 53rd are rounded away, and a carry out
/// of the fraction runs into the exponent.
pub open spec fn double_of(n: nat) -> int {
    if n == 0 {
        0
    } else {
        let p = top_bit(n);
        if p <= 52 {
            (1023 + p) * pow2(52) + (n - pow2(p)) * pow2((52 - p) as nat)
        } else {
            let unit = pow2((p - 52) as nat) as int;
            let kept = n as int / unit;
            let rest = n as int % unit;
            let up: int = if 2 * rest > unit || (2 * rest == unit && kept % 2 == 1) {
                1
            } else {
                0
            };
            (1023 + p) * pow2(52) + (kept + up - pow2(52))
        }
    }
}

/// The highest bit of a number is where the powers of two say it is.
pub proof fn lemma_top_bit(n: nat, p: nat)
    requires
        pow2(p) <= n < 2 * pow2(p),
    ensures
        top_bit(n) == p,
    decreases p,
{
    lemma2_to64();
    if p == 0 {
        assert(n == 1);
    } else {
        lemma_pow2_unfold(p);
        lemma_pow2_pos((p - 1) as nat);
        lemma_top_bit(n / 2, (p - 1) as nat);
    }
}

/// The sign bit of a binary64 bit pattern.
pub const SIGN_BIT: u64 = 0x8000_0000_0000_0000;

/// The bit pattern of positive infinity. A larger magnitude is a NaN.
pub const INFINITY_BITS: u64 = 0x7ff0_0000_0000_0000;

/// An IEEE-754 binary64 number, held by its bit pattern.
///
/// The library never adds or multiplies scalars. It only asks how two of them
/// compare, which for binary64 can be read off the bits: among the numbers
/// (everything that is not a NaN) the order of the values is the order of the
/// signed magnitudes, with both zeros in the same place. A NaN compares false
/// against everything, itself included.
///
/// The derived `==` is identity of bit patterns, not numeric equality: it tells
/// `+0.0` from `-0.0` and finds a NaN equal to itself. Use [`Scalar::same`]
/// for the numeric question.
#[derive(Clone, Copy, Debug, PartialEq, Eq, Structural)]
pub struct Scalar {
    pub bits: u64,
}

/// A number above zero lies between the power of two at its highest bit and
/// the next one.
pub proof fn lemma_top_bit_bounds(n: nat)
    requires
        n > 0,
    ensures
        pow2(top_bit(n)) <= n < 2 * pow2(top_bit(n)),
    decreases n,
{
    lemma2_to64();
    if n >= 2 {
        lemma_top_bit_bounds(n / 2);
        lemma_pow2_unfold(top_bit(n));
    }
}

/// Whole numbers below `2^53` keep their order as doubles, and no two of them
/// are the same double: the larger number has the larger bit pattern.
pub proof fn lemma_double_of_grows(m: nat, n: nat)
    requires
        m < n < pow2(53),
    ensures
        0 <= double_of(m) < double_of(n) < INFINITY_BITS,
{
    lemma2_to64();
    lemma2_to64_rest();
    lemma_top_bit_bounds(n);
    let q = top_bit(n);
    if q > 52 {
        if q > 53 {
            lemma_pow2_strictly_increases(53, q);
        }
    }
    lemma_pow2_pos((52 - q) as nat);
    lemma_pow2_adds(q, (52 - q) as nat);
    let scale_n = pow2((52 - q) as nat) as int;
    let rest_n = n - pow2(q);
    assert(0 <= rest_n * scale_n < pow2(q) * scale_n) by (nonlinear_arith)
        requires
            0 <= rest_n < pow2(q),
            0 < scale_n,
    ;
    if m > 0 {
        lemma_top_bit_bounds(m);
        let p = top_bit(m);
        if p > q {
            if p > q + 1 {
                lemma_pow2_strictly_increases(q + 1, p);
            }
            lemma_pow2_unfold(q + 1);
        }
        lemma_pow2_pos((52 - p) as nat);
        lemma_pow2_adds(p, (52 - p) as nat);
        let scale_m = pow2((52 - p) as nat) as int;
        let rest_m = m - pow2(p);
        assert(0 <= rest_m * scale_m < pow2(p) * scale_m) by (nonlinear_arith)
            requires
                0 <= rest_m < pow2(p),
                0 < scale_m,
        ;
        if p == q {
            assert(rest_m * scale_n < rest_n * scale_n) by (nonlinear_arith)
                requires
                    rest_m < rest_n,
                    0 < scale_n,
            ;
        }
    }
}

impl Scalar {
    /// The bits without the sign.
    pub open spec fn magnitude(self) -> int {
        if self.bits < SIGN_BIT {
            self.bits as int
        } else {
            self.bits - SIGN_BIT
        }
    }

    /// Where the scalar stands on the number line: its magnitude, negated
    /// under a set sign bit. Meaningful for numbers only.
    pub open spec fn rank(self) -> int {
        if self.bits < SIGN_BIT {
            self.bits as int
        } else {
            -(self.bits - SIGN_BIT)
        }
    }

    /// The scalar is a NaN: its magnitude lies beyond that of infinity.
    pub open spec fn spec_is_nan(self) -> bool {
        self.magnitude() > INFINITY_BITS
    }

    /// `self < other` as doubles compare.
    pub open spec fn spec_lt(self, other: Scalar) -> bool {
        !self.is_nan() && !other.is_nan() && self.rank() < other.rank()
    }

    /// `self > other` as doubles compare.
    pub open spec fn spec_gt(self, other: Scalar) -> bool {
        other.spec_lt(self)
    }

    /// `self <= other` as doubles compare.
    pub open spec fn spec_le(self, other: Scalar) -> bool {
        !self.is_nan() && !other.is_nan() && self.rank() <= other.rank()
    }

    /// `self >= other` as doubles compare.
    pub open spec fn spec_ge(self, other: Scalar) -> bool {
        other.spec_le(self)
    }

    /// `self == other` as doubles compare.
    pub open spec fn spec_same(self, other: Scalar) -> bool {
        !self.is_nan() && !other.is_nan() && self.rank() == other.rank()
    }

    /// The scalar kept within `[low, high]`: a scalar below `low` becomes
    /// `low`, one above `high` becomes `high`, any other stays, a NaN
    /// included.
    pub open spec fn spec_clamp(self, low: Scalar, high: Scalar) -> Scalar {
        if self.spec_lt(low) {
            low
        } else if self.spec_gt(high) {
            high
        } else {
            self
        }
    }

    /// The double nearest to a whole number.
    pub open spec fn spec_from_index(n: nat) -> Scalar {
        Scalar { bits: double_of(n) as u64 }
    }

    /// The scalar with the given bit pattern.
    pub fn from_bits(bits: u64) -> (s: Scalar)
        ensures
            s.bits == bits,
    {
        Scalar { bits }
    }

    /// The bit pattern.
    pub fn to_bits(self) -> (bits: u64)
        ensures
            bits == self.bits,
    {
        self.bits
    }

    /// The double nearest to a whole number, as a cast of the number to a
    /// double gives it. It is a number, and not below zero.
    pub fn from_index(n: usize) -> (s: Scalar)
        ensures
            s == Scalar::spec_from_index(n as nat),
            s.bits == double_of(n as nat),
            !s.spec_is_nan(),
            s.bits < INFINITY_BITS,
    {
        let n: u64 = n as u64;
        if n == 0 {
            return Scalar { bits: 0 };
        }
        proof {
            lemma2_to64();
            lemma2_to64_rest();
        }
        let mut p: u64 = 0;
        let mut pow: u64 = 1;
        while pow <= n - pow
            invariant
                0 < pow <= n,
                pow == pow2(p as nat),
                p <= 63,
            decreases n - pow,
        {
            proof {
                lemma2_to64();
                lemma_pow2_unfold((p + 1) as nat);
                if p + 1 > 64 {
                    lemma_pow2_strictly_increases(64, (p + 1) as nat);
                }
            }
            pow = pow + pow;
            p = p + 1;
        }
        proof {
            lemma_top_bit(n as nat, p as nat);
        }
        let exponent: u64 = (1023 + p) * 0x10_0000_0000_0000;
        if p <= 52 {
            let mut scale: u64 = 1;
            let mut k: u64 = 0;
            while k < 52 - p
                invariant
                    p <= 52,
                    k <= 52 - p,
                    scale == pow2(k as nat),
                    scale <= 0x10_0000_0000_0000,
                decreases 52 - p - k,
            {
                proof {
                    lemma2_to64_rest();
                    lemma_pow2_unfold((k + 1) as nat);
                    if k + 1 < 52 {
                        lemma_pow2_strictly_increases((k + 1) as nat, 52);
                    }
                }
                scale = scale + scale;
                k = k + 1;
            }
            proof {
                lemma_pow2_adds(p as nat, (52 - p) as nat);
                assert((n - pow) * scale < pow * scale) by (nonlinear_arith)
                    requires
                        0 <= n - pow < pow,
                        0 < scale,
                ;
                assert(0 <= (n - pow) * scale) by (nonlinear_arith)
                    requires
                        0 <= n - pow,
                        0 < scale,
                ;
            }
            Scalar { bits: exponent + (n - pow) * scale }
        } else {
            let mut unit: u64 = 1;
            let mut k: u64 = 0;
            while k < p - 52
                invariant
                    52 < p <= 63,
                    k <= p - 52,
                    unit == pow2(k as nat),
                    unit <= 0x800,
                decreases p - 52 - k,
            {
                proof {
                    lemma2_to64();
                    lemma_pow2_unfold((k + 1) as nat);
                    if k + 1 < 11 {
                        lemma_pow2_strictly_increases((k + 1) as nat, 11);
                    }
                }
                unit = unit + unit;
                k = k + 1;
            }
            let kept: u64 = n / unit;
            let rest: u64 = n % unit;
            proof {
                lemma_pow2_adds(52, (p - 52) as nat);
                vstd::arithmetic::div_mod::lemma_fundamental_div_mod(n as int, unit as int);
                assert(0x10_0000_0000_0000 <= kept < 0x20_0000_0000_0000) by (nonlinear_arith)
                    requires
                        n == unit * kept + rest,
                        0 <= rest < unit,
                        0x10_0000_0000_0000 * unit <= n < 2 * (0x10_0000_0000_0000 * unit),
                ;
            }
            let up: u64 = if rest > unit - rest || (rest == unit - rest && kept % 2 == 1) {
                1
            } else {
                0
            };
            Scalar { bits: exponent + (kept + up - 0x10_0000_0000_0000) }
        }
    }

    /// Positive zero.
    pub fn zero() -> (s: Scalar)
        ensures
            s.bits == 0,
    {
        Scalar { bits: 0 }
    }

    /// Positive infinity.
    pub fn infinity() -> (s: Scalar)
        ensures
            s.bits == INFINITY_BITS,
    {
        Scalar { bits: INFINITY_BITS }
    }

    fn signed_magnitude(self) -> (r: i64)
        ensures
            r == self.rank(),
    {
        if self.bits < SIGN_BIT {
            self.bits as i64
        } else {
            let m: u64 = self.bits - SIGN_BIT;
            -(m as i64)
        }
    }

    /// Whether the scalar is a NaN.
    #[verifier::when_used_as_spec(spec_is_nan)]
    pub fn is_nan(self) -> (r: bool)
        ensures
            r == self.spec_is_nan(),
    {
        if self.bits < SIGN_BIT {
            self.bits > INFINITY_BITS
        } else {
            self.bits - SIGN_BIT > INFINITY_BITS
        }
    }

    /// `self < other` as doubles compare.
    #[verifier::when_used_as_spec(spec_lt)]
    pub fn lt(self, other: Scalar) -> (r: bool)
        ensures
            r == self.spec_lt(other),
    {
        !self.is_nan() && !other.is_nan() && self.signed_magnitude() < other.signed_magnitude()
    }

    /// `self > other` as doubles compare.
    #[verifier::when_used_as_spec(spec_gt)]
    pub fn gt(self, other: Scalar) -> (r: bool)
        ensures
            r == self.spec_gt(other),
    {
        other.lt(self)
    }

    /// `self <= other` as doubles compare.
    #[verifier::when_used_as_spec(spec_le)]
    pub fn le(self, other: Scalar) -> (r: bool)
        ensures
            r == self.spec_le(other),
    {
        !self.is_nan() && !other.is_nan() && self.signed_magnitude() <= other.signed_magnitude()
    }

    /// `self >= other` as doubles compare.
    #[verifier::when_used_as_spec(spec_ge)]
    pub fn ge(self, other: Scalar) -> (r: bool)
        ensures
            r == self.spec_ge(other),
    {
        other.le(self)
    }

    /// `self == other` as doubles compare: both are numbers in the same place
    /// on the number line.
    #[verifier::when_used_as_spec(spec_same)]
    pub fn same(self, other: Scalar) -> (r: bool)
        ensures
            r == self.spec_same(other),
    {
        !self.is_nan() && !other.is_nan() && self.signed_magnitude() == other.signed_magnitude()
    }

    /// Keeps the scalar within `[low, high]`, as `clamp` does for doubles.
    /// The bounds must be in order.
    #[verifier::when_used_as_spec(spec_clamp)]
    pub fn clamp(self, low: Scalar, high: Scalar) -> (r: Scalar)
        requires
            low.spec_le(high),
        ensures
            r == self.spec_clamp(low, high),
    {
        if self.lt(low) {
            low
        } else if self.gt(high) {
            high
        } else {
            self
        }
    }
}

/// Numbers are totally ordered: of two numbers exactly one is the smaller,
/// unless they are the same; a NaN is in no order with anything.
pub proof fn lemma_numbers_are_ordered(a: Scalar, b: Scalar)
    ensures
        !a.spec_is_nan() && !b.spec_is_nan() ==> (a.spec_lt(b) || a.spec_same(b) || a.spec_gt(b)),
        !(a.spec_lt(b) && a.spec_gt(b)),
        !(a.spec_lt(b) && a.spec_same(b)),
        !(a.spec_gt(b) && a.spec_same(b)),
        a.spec_le(b) <==> a.spec_lt(b) || a.spec_same(b),
        a.spec_is_nan() || b.spec_is_nan() ==> !a.spec_lt(b) && !a.spec_le(b) && !a.spec_same(b),
{
}

/// The order of numbers carries over: what is below something that is below
/// a third is below the third.
pub proof fn lemma_order_carries_over(a: Scalar, b: Scalar, c: Scalar)
    ensures
        a.spec_le(b) && b.spec_le(c) ==> a.spec_le(c),
        a.spec_lt(b) && b.spec_le(c) ==> a.spec_lt(c),
        a.spec_le(b) && b.spec_lt(c) ==> a.spec_lt(c),
{
}

/// A clamped number lies within the bounds.
pub proof fn lemma_clamp_is_within(x: Scalar, low: Scalar, high: Scalar)
    requires
        !x.spec_is_nan(),
        low.spec_le(high),
    ensures
        low.spec_le(x.spec_clamp(low, high)),
        x.spec_clamp(low, high).spec_le(high),
{
}

} // verus!

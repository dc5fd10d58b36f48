//! Fixed-point scalars: a signed count of millionths whose arithmetic saturates.
//!
//! Every quantity of the simulation (lengths, masses, velocities, seconds) is a
//! [`Scalar`]. Arithmetic is exact on mathematical integers, rounded toward zero
//! where a quotient is taken, and then clamped into `[-LIMIT, LIMIT]`, so no
//! operation can overflow or fail. Products and quotients also come rounded
//! away from zero, for quantities that must not vanish while the exact value
//! does not.

use vstd::prelude::*;

verus! {

/// Raw units in one whole unit.
pub const SCALE: i64 = 1_000_000;

/// Largest magnitude that an arithmetic result can have, in raw units.
pub const LIMIT: i64 = 1_000_000_000_000_000;

/// A fixed-point number with six decimal places.
#[derive(Clone, Copy, Debug, PartialEq, Eq, Hash)]
pub struct Scalar {
    /// The value in millionths.
    pub raw: i64,
}

impl View for Scalar {
    type V = int;

    open spec fn view(&self) -> int {
        self.raw as int
    }
}

/// Clamps an integer into `[-LIMIT, LIMIT]`.
pub open spec fn clamp(v: int) -> int {
    if v > LIMIT as int {
        LIMIT as int
    } else if v < -(LIMIT as int) {
        -(LIMIT as int)
    } else {
        v
    }
}

/// Quotient of `n` by `d` rounded toward zero; zero when `d` is zero.
pub open spec fn trunc_div(n: int, d: int) -> int {
    if d == 0 {
        0
    } else if n >= 0 && d > 0 {
        n / d
    } else if n >= 0 {
        -(n / (-d))
    } else if d > 0 {
        -((-n) / d)
    } else {
        (-n) / (-d)
    }
}

/// Quotient of `n` by `d` rounded away from zero; zero when `d` is zero.
pub open spec fn away_div(n: int, d: int) -> int {
    if d == 0 {
        0
    } else if n >= 0 && d > 0 {
        (n + d - 1) / d
    } else if n >= 0 {
        -((n - d - 1) / (-d))
    } else if d > 0 {
        -((-n + d - 1) / d)
    } else {
        (-n - d - 1) / (-d)
    }
}

/// Whether `r` is the integer square root of `n`, rounded down.
pub open spec fn is_sqrt_floor(n: int, r: int) -> bool {
    0 <= r && r * r <= n && n < (r + 1) * (r + 1)
}

/// The integer square root of `n`, rounded down (zero for negative `n`).
pub open spec fn sqrt_floor(n: int) -> int {
    if n < 0 {
        0
    } else {
        choose|r: int| is_sqrt_floor(n, r)
    }
}

/// The scalar that holds `v` raw units after clamping.
pub open spec fn scalar(v: int) -> Scalar {
    Scalar { raw: clamp(v) as i64 }
}

impl Scalar {
    /// Whether the value lies within the range that arithmetic results occupy.
    pub open spec fn in_range(self) -> bool {
        -(LIMIT as int) <= self@ <= LIMIT as int
    }

    /// The sum, clamped.
    pub open spec fn spec_add(self, other: Scalar) -> Scalar {
        scalar(self@ + other@)
    }

    /// The difference, clamped.
    pub open spec fn spec_sub(self, other: Scalar) -> Scalar {
        scalar(self@ - other@)
    }

    /// The negation, clamped.
    pub open spec fn spec_neg(self) -> Scalar {
        scalar(-self@)
    }

    /// The product, rounded toward zero and clamped.
    pub open spec fn spec_mul(self, other: Scalar) -> Scalar {
        scalar(trunc_div(self@ * other@, SCALE as int))
    }

    /// The quotient, rounded toward zero and clamped; division by zero
    /// saturates toward the sign of the dividend.
    pub open spec fn spec_div(self, other: Scalar) -> Scalar {
        if other@ == 0 {
            if self@ > 0 {
                scalar(LIMIT as int)
            } else if self@ < 0 {
                scalar(-(LIMIT as int))
            } else {
                scalar(0)
            }
        } else {
            scalar(trunc_div(self@ * (SCALE as int), other@))
        }
    }

    /// The product, rounded away from zero and clamped.
    pub open spec fn spec_mul_away(self, other: Scalar) -> Scalar {
        scalar(away_div(self@ * other@, SCALE as int))
    }

    /// The quotient, rounded away from zero and clamped; division by zero
    /// saturates toward the sign of the dividend.
    pub open spec fn spec_div_away(self, other: Scalar) -> Scalar {
        if other@ == 0 {
            if self@ > 0 {
                scalar(LIMIT as int)
            } else if self@ < 0 {
                scalar(-(LIMIT as int))
            } else {
                scalar(0)
            }
        } else {
            scalar(away_div(self@ * (SCALE as int), other@))
        }
    }

    /// Half of the value, rounded toward zero.
    pub open spec fn spec_half(self) -> Scalar {
        scalar(trunc_div(self@, 2))
    }

    /// The absolute value, clamped.
    pub open spec fn spec_abs(self) -> Scalar {
        if self@ < 0 {
            scalar(-self@)
        } else {
            scalar(self@)
        }
    }

    /// The smaller of two values; `self` when they are equal.
    pub open spec fn spec_min(self, other: Scalar) -> Scalar {
        if other@ < self@ {
            other
        } else {
            self
        }
    }

    /// The larger of two values; `self` when they are equal.
    pub open spec fn spec_max(self, other: Scalar) -> Scalar {
        if other@ > self@ {
            other
        } else {
            self
        }
    }

    /// Zero.
    pub fn zero() -> (s: Scalar)
        ensures
            s == scalar(0),
            s@ == 0,
    {
        Scalar { raw: 0 }
    }

    /// One whole unit.
    pub fn one() -> (s: Scalar)
        ensures
            s == scalar(SCALE as int),
            s@ == SCALE as int,
    {
        Scalar { raw: SCALE }
    }

    /// Builds a scalar from a count of millionths, saturating at the limit.
    pub fn from_micros(raw: i64) -> (s: Scalar)
        ensures
            s == scalar(raw as int),
    {
        Scalar::saturate(raw as i128)
    }

    /// Builds a scalar from a count of whole units, saturating at the limit.
    pub fn from_units(units: i64) -> (s: Scalar)
        ensures
            s == scalar(units as int * SCALE as int),
    {
        proof {
            lemma_product_bound(units as int, SCALE as int, 0x8000_0000_0000_0000, SCALE as int);
        }
        let wide: i128 = (units as i128) * (SCALE as i128);
        Scalar::saturate(wide)
    }

    /// Builds the scalar of `numerator / denominator` whole units, rounded
    /// toward zero; zero when the denominator is zero.
    pub fn from_ratio(numerator: i64, denominator: i64) -> (s: Scalar)
        ensures
            s == scalar(trunc_div(numerator as int * SCALE as int, denominator as int)),
    {
        if denominator == 0 {
            Scalar { raw: 0 }
        } else {
            proof {
                lemma_product_bound(numerator as int, SCALE as int, 0x8000_0000_0000_0000, SCALE as int);
            }
            let wide: i128 = (numerator as i128) * (SCALE as i128);
            Scalar::saturate(quotient_toward_zero(wide, denominator as i128))
        }
    }

    /// The value in millionths.
    pub fn micros(self) -> (raw: i64)
        ensures
            raw as int == self@,
    {
        self.raw
    }

    /// Clamps a wide integer into a scalar.
    pub fn saturate(v: i128) -> (s: Scalar)
        ensures
            s == scalar(v as int),
            s.in_range(),
    {
        if v > LIMIT as i128 {
            Scalar { raw: LIMIT }
        } else if v < -(LIMIT as i128) {
            Scalar { raw: -LIMIT }
        } else {
            Scalar { raw: v as i64 }
        }
    }

    /// Saturating sum.
    #[verifier::when_used_as_spec(spec_add)]
    pub fn add(self, other: Scalar) -> (s: Scalar)
        ensures
            s == self.spec_add(other),
            s.in_range(),
    {
        Scalar::saturate(self.raw as i128 + other.raw as i128)
    }

    /// Saturating difference.
    #[verifier::when_used_as_spec(spec_sub)]
    pub fn sub(self, other: Scalar) -> (s: Scalar)
        ensures
            s == self.spec_sub(other),
            s.in_range(),
    {
        Scalar::saturate(self.raw as i128 - other.raw as i128)
    }

    /// Saturating negation.
    #[verifier::when_used_as_spec(spec_neg)]
    pub fn neg(self) -> (s: Scalar)
        ensures
            s == self.spec_neg(),
            s.in_range(),
    {
        Scalar::saturate(-(self.raw as i128))
    }

    /// Saturating product, rounded toward zero.
    #[verifier::when_used_as_spec(spec_mul)]
    pub fn mul(self, other: Scalar) -> (s: Scalar)
        ensures
            s == self.spec_mul(other),
            s.in_range(),
    {
        proof {
            lemma_product_bound(self@, other@, 0x8000_0000_0000_0000, 0x8000_0000_0000_0000);
        }
        let wide: i128 = (self.raw as i128) * (other.raw as i128);
        Scalar::saturate(wide / (SCALE as i128))
    }

    /// Saturating quotient, rounded toward zero.
    #[verifier::when_used_as_spec(spec_div)]
    pub fn div(self, other: Scalar) -> (s: Scalar)
        ensures
            s == self.spec_div(other),
            s.in_range(),
    {
        if other.raw == 0 {
            if self.raw > 0 {
                Scalar { raw: LIMIT }
            } else if self.raw < 0 {
                Scalar { raw: -LIMIT }
            } else {
                Scalar { raw: 0 }
            }
        } else {
            proof {
                lemma_product_bound(self@, SCALE as int, 0x8000_0000_0000_0000, SCALE as int);
            }
            let wide: i128 = (self.raw as i128) * (SCALE as i128);
            Scalar::saturate(quotient_toward_zero(wide, other.raw as i128))
        }
    }

    /// Saturating product, rounded away from zero.
    #[verifier::when_used_as_spec(spec_mul_away)]
    pub fn mul_away(self, other: Scalar) -> (s: Scalar)
        ensures
            s == self.spec_mul_away(other),
            s.in_range(),
    {
        proof {
            lemma_product_bound(self@, other@, 0x8000_0000_0000_0000, 0x8000_0000_0000_0000);
        }
        let wide: i128 = (self.raw as i128) * (other.raw as i128);
        Scalar::saturate(quotient_away_from_zero(wide, SCALE as i128))
    }

    /// Saturating quotient, rounded away from zero.
    #[verifier::when_used_as_spec(spec_div_away)]
    pub fn div_away(self, other: Scalar) -> (s: Scalar)
        ensures
            s == self.spec_div_away(other),
            s.in_range(),
    {
        if other.raw == 0 {
            if self.raw > 0 {
                Scalar { raw: LIMIT }
            } else if self.raw < 0 {
                Scalar { raw: -LIMIT }
            } else {
                Scalar { raw: 0 }
            }
        } else {
            proof {
                lemma_product_bound(self@, SCALE as int, 0x8000_0000_0000_0000, SCALE as int);
            }
            let wide: i128 = (self.raw as i128) * (SCALE as i128);
            Scalar::saturate(quotient_away_from_zero(wide, other.raw as i128))
        }
    }

    /// Half of the value, rounded toward zero.
    #[verifier::when_used_as_spec(spec_half)]
    pub fn half(self) -> (s: Scalar)
        ensures
            s == self.spec_half(),
            s.in_range(),
    {
        Scalar::saturate((self.raw as i128) / 2)
    }

    /// Saturating absolute value.
    #[verifier::when_used_as_spec(spec_abs)]
    pub fn abs(self) -> (s: Scalar)
        ensures
            s == self.spec_abs(),
            s.in_range(),
    {
        if self.raw < 0 {
            Scalar::saturate(-(self.raw as i128))
        } else {
            Scalar::saturate(self.raw as i128)
        }
    }

    /// The smaller of two values; `self` when they are equal.
    #[verifier::when_used_as_spec(spec_min)]
    pub fn min(self, other: Scalar) -> (s: Scalar)
        ensures
            s == self.spec_min(other),
    {
        if other.raw < self.raw {
            other
        } else {
            self
        }
    }

    /// The larger of two values; `self` when they are equal.
    #[verifier::when_used_as_spec(spec_max)]
    pub fn max(self, other: Scalar) -> (s: Scalar)
        ensures
            s == self.spec_max(other),
    {
        if other.raw > self.raw {
            other
        } else {
            self
        }
    }
}

impl Default for Scalar {
    fn default() -> (s: Scalar)
        ensures
            s@ == 0,
    {
        Scalar { raw: 0 }
    }
}

/// Quotient rounded toward zero, for operands well inside the 128-bit range.
pub fn quotient_toward_zero(n: i128, d: i128) -> (q: i128)
    requires
        d != 0,
        -0x4000_0000_0000_0000_0000_0000_0000_0000 <= n <= 0x4000_0000_0000_0000_0000_0000_0000_0000,
        -0x4000_0000_0000_0000_0000_0000_0000_0000 <= d <= 0x4000_0000_0000_0000_0000_0000_0000_0000,
    ensures
        q as int == trunc_div(n as int, d as int),
{
    if n >= 0 && d > 0 {
        n / d
    } else if n >= 0 {
        -(n / (-d))
    } else if d > 0 {
        -((-n) / d)
    } else {
        (-n) / (-d)
    }
}

/// Quotient rounded away from zero, for a dividend well inside the 128-bit
/// range and a divisor of at most 64 bits.
pub fn quotient_away_from_zero(n: i128, d: i128) -> (q: i128)
    requires
        d != 0,
        -0x4000_0000_0000_0000_0000_0000_0000_0000 <= n <= 0x4000_0000_0000_0000_0000_0000_0000_0000,
        -0x1_0000_0000_0000_0000 <= d <= 0x1_0000_0000_0000_0000,
    ensures
        q as int == away_div(n as int, d as int),
{
    if n >= 0 && d > 0 {
        (n + d - 1) / d
    } else if n >= 0 {
        -((n - d - 1) / (-d))
    } else if d > 0 {
        -((-n + d - 1) / d)
    } else {
        (-n - d - 1) / (-d)
    }
}

/// The product of two bounded integers is bounded by the product of the bounds.
pub proof fn lemma_product_bound(a: int, b: int, bound_a: int, bound_b: int)
    requires
        -bound_a <= a <= bound_a,
        -bound_b <= b <= bound_b,
    ensures
        -(bound_a * bound_b) <= a * b <= bound_a * bound_b,
{
    assert(-(bound_a * bound_b) <= a * b <= bound_a * bound_b) by (nonlinear_arith)
        requires
            -bound_a <= a <= bound_a,
            -bound_b <= b <= bound_b,
    ;
}

/// At most one integer is the rounded-down square root of `n`.
pub proof fn lemma_sqrt_floor_unique(n: int, r: int)
    requires
        is_sqrt_floor(n, r),
    ensures
        sqrt_floor(n) == r,
{
    let s = sqrt_floor(n);
    assert(n >= 0) by (nonlinear_arith)
        requires
            r * r <= n,
    ;
    assert(is_sqrt_floor(n, s));
    assert(s == r) by (nonlinear_arith)
        requires
            0 <= r,
            r * r <= n,
            n < (r + 1) * (r + 1),
            0 <= s,
            s * s <= n,
            n < (s + 1) * (s + 1),
    ;
}

/// Integer square root, rounded down.
pub fn isqrt(n: u128) -> (r: u128)
    ensures
        r as int == sqrt_floor(n as int),
        is_sqrt_floor(n as int, r as int),
        r < 0x1_0000_0000_0000_0000,
{
    let mut lo: u128 = 0;
    let mut hi: u128 = 0x1_0000_0000_0000_0000;
    assert(n < hi * hi) by (nonlinear_arith)
        requires
            hi == 0x1_0000_0000_0000_0000,
            n <= u128::MAX,
    ;
    while hi - lo > 1
        invariant
            lo < hi <= 0x1_0000_0000_0000_0000,
            lo * lo <= n,
            n < hi * hi,
        decreases hi - lo,
    {
        let mid: u128 = lo + (hi - lo) / 2;
        assert(mid * mid <= 0xffff_ffff_ffff_ffff * 0xffff_ffff_ffff_ffff) by (nonlinear_arith)
            requires
                0 <= mid <= 0xffff_ffff_ffff_ffff,
        ;
        if mid * mid <= n {
            lo = mid;
        } else {
            hi = mid;
        }
    }
    proof {
        assert(hi == lo + 1);
        lemma_sqrt_floor_unique(n as int, lo as int);
    }
    lo
}

/// A quotient rounded toward zero is zero or has the sign that the exact quotient has.
pub proof fn lemma_trunc_div_sign(n: int, d: int)
    ensures
        n >= 0 && d > 0 ==> trunc_div(n, d) >= 0,
        n <= 0 && d > 0 ==> trunc_div(n, d) <= 0,
        n >= 0 && d < 0 ==> trunc_div(n, d) <= 0,
        n <= 0 && d < 0 ==> trunc_div(n, d) >= 0,
        n == 0 ==> trunc_div(n, d) == 0,
{
    if d > 0 {
        if n >= 0 {
            assert(n / d >= 0) by (nonlinear_arith)
                requires
                    n >= 0,
                    d > 0,
            ;
        } else {
            assert((-n) / d >= 0) by (nonlinear_arith)
                requires
                    -n >= 0,
                    d > 0,
            ;
        }
    } else if d < 0 {
        if n >= 0 {
            assert(n / (-d) >= 0) by (nonlinear_arith)
                requires
                    n >= 0,
                    -d > 0,
            ;
        } else {
            assert((-n) / (-d) >= 0) by (nonlinear_arith)
                requires
                    -n >= 0,
                    -d > 0,
            ;
        }
    }
    if n == 0 && d != 0 {
        assert(0int / d == 0) by (nonlinear_arith)
            requires
                d != 0,
        ;
        assert(0int / (-d) == 0) by (nonlinear_arith)
            requires
                d != 0,
        ;
    }
}

/// A product is zero or has the sign that the exact product has.
pub proof fn lemma_mul_sign(a: Scalar, b: Scalar)
    ensures
        a@ >= 0 && b@ >= 0 ==> a.mul(b)@ >= 0,
        a@ <= 0 && b@ <= 0 ==> a.mul(b)@ >= 0,
        a@ >= 0 && b@ <= 0 ==> a.mul(b)@ <= 0,
        a@ <= 0 && b@ >= 0 ==> a.mul(b)@ <= 0,
        a@ == 0 || b@ == 0 ==> a.mul(b)@ == 0,
{
    let x = a@;
    let y = b@;
    assert(x >= 0 && y >= 0 ==> x * y >= 0) by (nonlinear_arith);
    assert(x <= 0 && y <= 0 ==> x * y >= 0) by (nonlinear_arith);
    assert(x >= 0 && y <= 0 ==> x * y <= 0) by (nonlinear_arith);
    assert(x <= 0 && y >= 0 ==> x * y <= 0) by (nonlinear_arith);
    assert(x == 0 || y == 0 ==> x * y == 0) by (nonlinear_arith);
    lemma_trunc_div_sign(x * y, SCALE as int);
}

/// A quotient is zero or has the sign that the exact quotient has; division by
/// zero keeps the sign of the dividend.
pub proof fn lemma_div_sign(a: Scalar, b: Scalar)
    ensures
        a@ >= 0 && b@ >= 0 ==> a.div(b)@ >= 0,
        a@ <= 0 && b@ >= 0 ==> a.div(b)@ <= 0,
        a@ >= 0 && b@ < 0 ==> a.div(b)@ <= 0,
        a@ <= 0 && b@ < 0 ==> a.div(b)@ >= 0,
        a@ == 0 ==> a.div(b)@ == 0,
{
    let x = a@;
    assert(x >= 0 ==> x * 1_000_000 >= 0);
    assert(x <= 0 ==> x * 1_000_000 <= 0);
    lemma_trunc_div_sign(x * (SCALE as int), b@);
}

/// A quotient rounded away from zero has the sign that the exact quotient has,
/// and is zero only where the dividend is.
pub proof fn lemma_away_div_sign(n: int, d: int)
    ensures
        n > 0 && d > 0 ==> away_div(n, d) > 0,
        n < 0 && d > 0 ==> away_div(n, d) < 0,
        n > 0 && d < 0 ==> away_div(n, d) < 0,
        n < 0 && d < 0 ==> away_div(n, d) > 0,
        n == 0 ==> away_div(n, d) == 0,
{
    if d > 0 {
        if n > 0 {
            assert((n + d - 1) / d > 0) by (nonlinear_arith)
                requires
                    n > 0,
                    d > 0,
            ;
        } else if n < 0 {
            assert((-n + d - 1) / d > 0) by (nonlinear_arith)
                requires
                    -n > 0,
                    d > 0,
            ;
        } else {
            assert((d - 1) / d == 0) by (nonlinear_arith)
                requires
                    d > 0,
            ;
        }
    } else if d < 0 {
        let e = -d;
        if n > 0 {
            assert((n + e - 1) / e > 0) by (nonlinear_arith)
                requires
                    n > 0,
                    e > 0,
            ;
        } else if n < 0 {
            assert((-n + e - 1) / e > 0) by (nonlinear_arith)
                requires
                    -n > 0,
                    e > 0,
            ;
        } else {
            assert((e - 1) / e == 0) by (nonlinear_arith)
                requires
                    e > 0,
            ;
        }
    }
}

/// A product rounded away from zero has the sign that the exact product has,
/// and is zero only where a factor is.
pub proof fn lemma_mul_away_sign(a: Scalar, b: Scalar)
    ensures
        a@ > 0 && b@ > 0 ==> a.mul_away(b)@ > 0,
        a@ < 0 && b@ < 0 ==> a.mul_away(b)@ > 0,
        a@ > 0 && b@ < 0 ==> a.mul_away(b)@ < 0,
        a@ < 0 && b@ > 0 ==> a.mul_away(b)@ < 0,
        a@ == 0 || b@ == 0 ==> a.mul_away(b)@ == 0,
        a.mul_away(b).in_range(),
{
    let x = a@;
    let y = b@;
    assert(x > 0 && y > 0 ==> x * y > 0) by (nonlinear_arith);
    assert(x < 0 && y < 0 ==> x * y > 0) by (nonlinear_arith);
    assert(x > 0 && y < 0 ==> x * y < 0) by (nonlinear_arith);
    assert(x < 0 && y > 0 ==> x * y < 0) by (nonlinear_arith);
    assert(x == 0 || y == 0 ==> x * y == 0) by (nonlinear_arith);
    lemma_away_div_sign(x * y, SCALE as int);
}

/// A quotient rounded away from zero has the sign that the exact quotient has,
/// and is zero only where the dividend is; division by zero keeps the sign of
/// the dividend.
pub proof fn lemma_div_away_sign(a: Scalar, b: Scalar)
    ensures
        a@ > 0 && b@ >= 0 ==> a.div_away(b)@ > 0,
        a@ < 0 && b@ >= 0 ==> a.div_away(b)@ < 0,
        a@ > 0 && b@ < 0 ==> a.div_away(b)@ < 0,
        a@ < 0 && b@ < 0 ==> a.div_away(b)@ > 0,
        a@ == 0 ==> a.div_away(b)@ == 0,
        a.div_away(b).in_range(),
{
    let x = a@;
    assert(x > 0 ==> x * 1_000_000 > 0);
    assert(x < 0 ==> x * 1_000_000 < 0);
    lemma_away_div_sign(x * (SCALE as int), b@);
}

/// Every natural number has a rounded-down square root, and it is not negative.
pub proof fn lemma_sqrt_floor_exists(n: int)
    requires
        n >= 0,
    ensures
        is_sqrt_floor(n, sqrt_floor(n)),
        sqrt_floor(n) >= 0,
    decreases n,
{
    if n == 0 {
        assert(is_sqrt_floor(0, 0));
    } else {
        lemma_sqrt_floor_exists(n - 1);
        let r = sqrt_floor(n - 1);
        if (r + 1) * (r + 1) <= n {
            assert(n < (r + 2) * (r + 2)) by (nonlinear_arith)
                requires
                    n - 1 < (r + 1) * (r + 1),
                    r >= 0,
            ;
            assert(is_sqrt_floor(n, r + 1));
        } else {
            assert(is_sqrt_floor(n, r));
        }
    }
}

} // verus!

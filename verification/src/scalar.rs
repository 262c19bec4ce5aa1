//! Fixed-point numbers for times, rates, and blend parameters.
//!
//! A [`Scalar`] counts millionths. Arithmetic saturates at the ends of the
//! representable range instead of wrapping, and products and quotients
//! round toward negative infinity.

use vstd::prelude::*;

verus! {

/// Raw units per whole unit.
pub const SCALE: i64 = 1_000_000;

/// A fixed-point number: `raw / SCALE`.
#[derive(Clone, Copy, Debug, PartialEq, Eq, Structural)]
pub struct Scalar {
    pub raw: i64,
}

impl View for Scalar {
    type V = int;

    open spec fn view(&self) -> int {
        self.raw as int
    }
}

/// The nearest representable raw value to `x`.
pub open spec fn saturate(x: int) -> int {
    if x < i64::MIN {
        i64::MIN as int
    } else if x > i64::MAX {
        i64::MAX as int
    } else {
        x
    }
}

/// The raw value of a product of two raw values.
pub open spec fn mul_raw(a: int, b: int) -> int {
    saturate((a * b) / (SCALE as int))
}

/// The quotient of two raw values before saturation: the floor of the
/// exact quotient, in raw units. Not meaningful for `b == 0`.
pub open spec fn floor_quotient(a: int, b: int) -> int {
    if b > 0 {
        (a * SCALE) / b
    } else {
        ((-a) * SCALE) / (-b)
    }
}

/// The raw value of a quotient of two raw values. Division by zero
/// saturates by the sign of the numerator; zero over zero is zero.
pub open spec fn div_raw(a: int, b: int) -> int {
    if b == 0 {
        if a > 0 {
            i64::MAX as int
        } else if a < 0 {
            i64::MIN as int
        } else {
            0
        }
    } else {
        saturate(floor_quotient(a, b))
    }
}

/// `x` held to the raw interval from zero to one.
pub open spec fn clamp_unit_raw(x: int) -> int {
    if x < 0 {
        0
    } else if x > SCALE {
        SCALE as int
    } else {
        x
    }
}

/// Dividing by a positive number moves a value no further from zero.
pub proof fn lemma_floor_div_between(x: int, d: int)
    requires
        d >= 1,
    ensures
        x >= 0 ==> 0 <= x / d <= x,
        x < 0 ==> x <= x / d < 0,
{
    vstd::arithmetic::div_mod::lemma_fundamental_div_mod(x, d);
    vstd::arithmetic::div_mod::lemma_mod_bound(x, d);
    let q = x / d;
    let r = x % d;
    assert(x == d * q + r);
    assert((x >= 0 ==> 0 <= q <= x) && (x < 0 ==> x <= q < 0)) by (nonlinear_arith)
        requires
            x == d * q + r,
            0 <= r < d,
            d >= 1,
    ;
}

fn saturate_wide(x: i128) -> (r: i64)
    ensures
        r as int == saturate(x as int),
{
    if x < i64::MIN as i128 {
        i64::MIN
    } else if x > i64::MAX as i128 {
        i64::MAX
    } else {
        x as i64
    }
}

impl Scalar {
    /// The number of `raw` millionths.
    pub fn from_raw(raw: i64) -> (r: Scalar)
        ensures
            r@ == raw,
    {
        Scalar { raw }
    }

    /// The raw value nearest to `wide`.
    pub fn from_wide(wide: i128) -> (r: Scalar)
        ensures
            r@ == saturate(wide as int),
    {
        Scalar { raw: saturate_wide(wide) }
    }

    /// Zero.
    pub fn zero() -> (r: Scalar)
        ensures
            r@ == 0,
    {
        Scalar { raw: 0 }
    }

    /// One.
    pub fn one() -> (r: Scalar)
        ensures
            r@ == SCALE,
    {
        Scalar { raw: SCALE }
    }

    /// The whole number `n`, saturated.
    pub fn from_int(n: i64) -> (r: Scalar)
        ensures
            r@ == saturate(n * SCALE),
    {
        assert(n * SCALE == n * 1_000_000);
        let wide: i128 = (n as i128) * (SCALE as i128);
        Scalar { raw: saturate_wide(wide) }
    }

    /// The whole number `n`, saturated.
    pub fn from_count(n: usize) -> (r: Scalar)
        ensures
            r@ == saturate(n * SCALE),
    {
        assert(n * SCALE == n * 1_000_000);
        let wide: i128 = (n as i128) * (SCALE as i128);
        Scalar { raw: saturate_wide(wide) }
    }

    /// The largest whole number not above `self`.
    pub fn floor(self) -> (r: i64)
        ensures
            r == self@ / (SCALE as int),
    {
        proof {
            lemma_floor_div_between(self@, SCALE as int);
        }
        match self.raw.checked_div_euclid(SCALE) {
            Some(q) => q,
            None => 0,
        }
    }

    /// What `self` exceeds its floor by: at least zero, less than one.
    pub fn fract(self) -> (r: Scalar)
        ensures
            r@ == self@ % (SCALE as int),
            0 <= r@ < SCALE,
    {
        match self.raw.checked_rem_euclid(SCALE) {
            Some(m) => Scalar { raw: m },
            None => Scalar { raw: 0 },
        }
    }

    /// `self` held to the interval from zero to one.
    pub fn clamp_unit(self) -> (r: Scalar)
        ensures
            r@ == clamp_unit_raw(self@),
    {
        if self.raw < 0 {
            Scalar { raw: 0 }
        } else if self.raw > SCALE {
            Scalar { raw: SCALE }
        } else {
            self
        }
    }

    /// The sum, saturated.
    pub fn add(self, other: Scalar) -> (r: Scalar)
        ensures
            r@ == saturate(self@ + other@),
    {
        let wide: i128 = (self.raw as i128) + (other.raw as i128);
        Scalar { raw: saturate_wide(wide) }
    }

    /// The difference, saturated.
    pub fn sub(self, other: Scalar) -> (r: Scalar)
        ensures
            r@ == saturate(self@ - other@),
    {
        let wide: i128 = (self.raw as i128) - (other.raw as i128);
        Scalar { raw: saturate_wide(wide) }
    }

    /// The product, rounded down and saturated.
    pub fn mul(self, other: Scalar) -> (r: Scalar)
        ensures
            r@ == mul_raw(self@, other@),
    {
        let a: i128 = self.raw as i128;
        let b: i128 = other.raw as i128;
        assert(-0x4000_0000_0000_0000_0000_0000_0000_0000 <= a * b
            <= 0x4000_0000_0000_0000_0000_0000_0000_0000) by (nonlinear_arith)
            requires
                -0x8000_0000_0000_0000 <= a <= 0x8000_0000_0000_0000,
                -0x8000_0000_0000_0000 <= b <= 0x8000_0000_0000_0000,
        ;
        let product: i128 = a * b;
        match product.checked_div_euclid(SCALE as i128) {
            Some(q) => Scalar { raw: saturate_wide(q) },
            None => Scalar { raw: 0 },
        }
    }

    /// The quotient, rounded down and saturated. Division by zero saturates
    /// by the sign of `self`; zero over zero is zero.
    pub fn div(self, other: Scalar) -> (r: Scalar)
        ensures
            r@ == div_raw(self@, other@),
    {
        if other.raw == 0 {
            if self.raw > 0 {
                Scalar { raw: i64::MAX }
            } else if self.raw < 0 {
                Scalar { raw: i64::MIN }
            } else {
                Scalar { raw: 0 }
            }
        } else {
            let a: i128 = self.raw as i128;
            let b: i128 = other.raw as i128;
            let n: i128 = if other.raw > 0 { a } else { -a };
            let d: i128 = if other.raw > 0 { b } else { -b };
            assert(n * SCALE == n * 1_000_000);
            let scaled: i128 = n * (SCALE as i128);
            assert(scaled / d == floor_quotient(self@, other@));
            proof {
                lemma_floor_div_between(scaled as int, d as int);
            }
            match scaled.checked_div_euclid(d) {
                Some(q) => Scalar { raw: saturate_wide(q) },
                None => Scalar { raw: 0 },
            }
        }
    }
}

} // verus!

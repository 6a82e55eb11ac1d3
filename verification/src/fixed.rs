//! Fixed-point scalars: a signed count of thousandths.
//!
//! Every operation saturates at the limits of the underlying 64-bit integer
//! and rounds products toward zero, so each one is total and exact to state.

use vstd::prelude::*;

verus! {

/// Number of raw steps in one unit.
pub const SCALE: i64 = 1000;

/// Clamps a mathematical integer into the range a scalar can hold.
pub open spec fn saturate(v: int) -> int {
    if v > i64::MAX {
        i64::MAX as int
    } else if v < i64::MIN {
        i64::MIN as int
    } else {
        v
    }
}

/// Quotient rounded toward zero, for a positive divisor.
pub open spec fn trunc_div(n: int, d: int) -> int {
    if n >= 0 {
        n / d
    } else {
        -((-n) / d)
    }
}

/// A scalar in thousandths: `raw == 1500` stands for 1.5.
#[derive(Clone, Copy, Debug, PartialEq, Eq, Structural)]
pub struct Fixed {
    pub raw: i64,
}

impl View for Fixed {
    type V = int;

    /// The scalar as a count of thousandths.
    open spec fn view(&self) -> int {
        self.raw as int
    }
}

proof fn lemma_product_bounds(a: int, b: int)
    requires
        i64::MIN <= a <= i64::MAX,
        i64::MIN <= b <= i64::MAX,
    ensures
        -0x4000_0000_0000_0000_0000_0000_0000_0000 <= a * b
            <= 0x4000_0000_0000_0000_0000_0000_0000_0000,
{
    assert(-0x4000_0000_0000_0000_0000_0000_0000_0000 <= a * b
        <= 0x4000_0000_0000_0000_0000_0000_0000_0000) by (nonlinear_arith)
        requires
            -0x8000_0000_0000_0000 <= a <= 0x7fff_ffff_ffff_ffff,
            -0x8000_0000_0000_0000 <= b <= 0x7fff_ffff_ffff_ffff,
    ;
}

impl Fixed {
    /// The scalar nearest to `v` thousandths.
    pub open spec fn of(v: int) -> Fixed {
        Fixed { raw: saturate(v) as i64 }
    }

    /// Saturating sum.
    pub open spec fn spec_plus(self, rhs: Fixed) -> Fixed {
        Fixed::of(self@ + rhs@)
    }

    /// Saturating difference.
    pub open spec fn spec_minus(self, rhs: Fixed) -> Fixed {
        Fixed::of(self@ - rhs@)
    }

    /// Saturating product, rounded toward zero.
    pub open spec fn spec_times(self, rhs: Fixed) -> Fixed {
        Fixed::of(trunc_div(self@ * rhs@, SCALE as int))
    }

    /// Zero.
    pub fn zero() -> (r: Fixed)
        ensures
            r@ == 0,
    {
        Fixed { raw: 0 }
    }

    /// One unit.
    pub fn one() -> (r: Fixed)
        ensures
            r@ == SCALE,
    {
        Fixed { raw: SCALE }
    }

    /// The scalar holding exactly `raw` thousandths.
    pub fn from_raw(raw: i64) -> (r: Fixed)
        ensures
            r@ == raw,
    {
        Fixed { raw }
    }

    /// The scalar holding `units` whole units.
    pub fn from_int(units: i32) -> (r: Fixed)
        ensures
            r@ == units * SCALE,
    {
        let wide: i64 = units as i64;
        Fixed { raw: wide * SCALE }
    }

    fn saturated(v: i128) -> (r: Fixed)
        ensures
            r == Fixed::of(v as int),
    {
        if v > i64::MAX as i128 {
            Fixed { raw: i64::MAX }
        } else if v < i64::MIN as i128 {
            Fixed { raw: i64::MIN }
        } else {
            Fixed { raw: v as i64 }
        }
    }

    /// Saturating sum.
    #[verifier::when_used_as_spec(spec_plus)]
    pub fn plus(self, rhs: Fixed) -> (r: Fixed)
        ensures
            r == self.spec_plus(rhs),
    {
        Fixed::saturated(self.raw as i128 + rhs.raw as i128)
    }

    /// Saturating difference.
    #[verifier::when_used_as_spec(spec_minus)]
    pub fn minus(self, rhs: Fixed) -> (r: Fixed)
        ensures
            r == self.spec_minus(rhs),
    {
        Fixed::saturated(self.raw as i128 - rhs.raw as i128)
    }

    /// Saturating product, rounded toward zero.
    #[verifier::when_used_as_spec(spec_times)]
    pub fn times(self, rhs: Fixed) -> (r: Fixed)
        ensures
            r == self.spec_times(rhs),
    {
        proof {
            lemma_product_bounds(self.raw as int, rhs.raw as int);
        }
        let product: i128 = (self.raw as i128) * (rhs.raw as i128);
        Fixed::saturated(product / (SCALE as i128))
    }

    /// Whether the scalar is zero.
    pub fn is_zero(self) -> (r: bool)
        ensures
            r == (self@ == 0),
    {
        self.raw == 0
    }
}

/// Adding zero changes nothing.
pub proof fn lemma_plus_zero(a: Fixed, z: Fixed)
    ensures
        z@ == 0 ==> a.plus(z) == a && z.plus(a) == a,
{
}

/// Multiplying by one unit changes nothing, and multiplying by zero gives zero.
pub proof fn lemma_times_unit(a: Fixed, u: Fixed)
    ensures
        u@ == SCALE ==> a.times(u) == a,
        u@ == 0 ==> a.times(u)@ == 0,
        a@ == 0 ==> a.times(u)@ == 0,
{
    if u@ == SCALE {
        assert(trunc_div(a@ * 1000, 1000) == a@) by (nonlinear_arith);
    }
    if u@ == 0 {
        assert(a@ * u@ == 0) by (nonlinear_arith)
            requires
                u@ == 0,
        ;
    }
    if a@ == 0 {
        assert(a@ * u@ == 0) by (nonlinear_arith)
            requires
                a@ == 0,
        ;
    }
}

} // verus!

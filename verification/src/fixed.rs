//! Fixed-point scalars: an `i64` counts billionths of a unit.
use vstd::prelude::*;

verus! {

/// The fixed-point representation of `1.0`.
pub const ONE: i64 = 1_000_000_000;

/// How many state units make one grid unit (a thousandth of a pixel).
pub const UNITS_PER_GRID: i64 = 1_000_000;

/// How many units of a plain product of two state quantities make one grid
/// unit: `ONE` times `UNITS_PER_GRID`.
pub const PRODUCT_PER_GRID: i64 = 1_000_000_000_000_000;

/// A bound on the magnitude of the fixed-point product of two 64-bit
/// quantities.
pub const PRODUCT_LIMIT: i128 = 0x10_0000_0000_0000_0000_0000_0000;

/// The fixed-point product `a * b`, rounded toward negative infinity.
pub open spec fn fx_mul(a: int, b: int) -> int {
    (a * b) / (ONE as int)
}

/// A state quantity expressed on the geometry grid, rounded toward negative
/// infinity.
pub open spec fn to_grid(a: int) -> int {
    a / (UNITS_PER_GRID as int)
}

/// The product of two bounded integers is bounded by the product of the bounds.
pub proof fn lemma_product_bound(a: int, b: int, ma: int, mb: int)
    by (nonlinear_arith)
    requires
        -ma <= a <= ma,
        -mb <= b <= mb,
    ensures
        -(ma * mb) <= a * b <= ma * mb,
{
}

/// Floor division by a positive divisor.
pub fn div_floor(a: i128, d: i128) -> (q: i128)
    requires
        d > 0,
    ensures
        q == (a as int) / (d as int),
{
    let t: i128 = a / d;
    let m: i128 = a % d;
    proof {
        lemma_floor_from_truncation(a as int, d as int);
    }
    if m < 0 {
        t - 1
    } else {
        t
    }
}

/// How the floor quotient of a negative dividend follows from the quotient
/// and remainder of its magnitude.
pub proof fn lemma_floor_from_truncation(a: int, d: int)
    requires
        d > 0,
    ensures
        a < 0 && (-a) % d == 0 ==> a / d == -((-a) / d),
        a < 0 && (-a) % d != 0 ==> a / d == -((-a) / d) - 1 && (-a) / d < -a,
{
    if a < 0 {
        let x = -a;
        let q = x / d;
        let r = x % d;
        vstd::arithmetic::div_mod::lemma_fundamental_div_mod(x, d);
        vstd::arithmetic::div_mod::lemma_mod_bound(x, d);
        if r == 0 {
            assert(a == d * (-q) + 0) by (nonlinear_arith)
                requires
                    x == d * q + r,
                    r == 0,
                    a == -x,
            ;
            vstd::arithmetic::div_mod::lemma_fundamental_div_mod_converse(a, d, -q, 0);
        } else {
            assert(a == d * (-q - 1) + (d - r)) by (nonlinear_arith)
                requires
                    x == d * q + r,
                    a == -x,
            ;
            vstd::arithmetic::div_mod::lemma_fundamental_div_mod_converse(a, d, -q - 1, d - r);
            assert(q < x) by (nonlinear_arith)
                requires
                    x == d * q + r,
                    0 < r < d,
                    x > 0,
                    q >= 0,
            ;
        }
    }
}

/// `fx_mul` of a signed quantity and an unsigned one (a rate and an elapsed
/// time, say). The result is well inside 128 bits.
pub fn mul_time(a: i64, dt: u64) -> (r: i128)
    ensures
        r == fx_mul(a as int, dt as int),
        -PRODUCT_LIMIT <= r <= PRODUCT_LIMIT,
{
    proof {
        lemma_product_bound(a as int, dt as int, 0x8000_0000_0000_0000, 0xffff_ffff_ffff_ffff);
    }
    let wide: i128 = (a as i128) * (dt as i128);
    div_floor(wide, ONE as i128)
}

/// `fx_mul` of two signed quantities. The result is well inside 128 bits.
pub fn mul_fixed(a: i64, b: i64) -> (r: i128)
    ensures
        r == fx_mul(a as int, b as int),
        -PRODUCT_LIMIT <= r <= PRODUCT_LIMIT,
{
    proof {
        lemma_product_bound(a as int, b as int, 0x8000_0000_0000_0000, 0x8000_0000_0000_0000);
    }
    let wide: i128 = (a as i128) * (b as i128);
    div_floor(wide, ONE as i128)
}

/// The fixed-point product of two quantities that are not negative is not
/// negative, and the product with zero is zero.
pub proof fn lemma_fx_mul_nonnegative(a: int, b: int)
    requires
        0 <= a,
        0 <= b,
    ensures
        0 <= fx_mul(a, b),
        fx_mul(a, 0) == 0,
        fx_mul(0, b) == 0,
{
    assert(0 <= a * b) by (nonlinear_arith)
        requires
            0 <= a,
            0 <= b,
    ;
    assert(a * 0 == 0 && 0 * b == 0) by (nonlinear_arith);
}

/// Scaling by a factor of magnitude at most one never grows a magnitude.
pub proof fn lemma_fx_mul_bounded(a: int, f: int, m: int)
    requires
        -m <= a <= m,
        -ONE <= f <= ONE,
    ensures
        -m <= fx_mul(a, f) <= m,
{
    lemma_product_bound(a, f, m, ONE as int);
    vstd::arithmetic::div_mod::lemma_div_is_ordered(a * f, m * (ONE as int), ONE as int);
    vstd::arithmetic::div_mod::lemma_div_is_ordered(-(m * (ONE as int)), a * f, ONE as int);
    vstd::arithmetic::div_mod::lemma_div_multiples_vanish(m, ONE as int);
    vstd::arithmetic::div_mod::lemma_div_multiples_vanish(-m, ONE as int);
    assert((-m) * (ONE as int) == -(m * (ONE as int))) by (nonlinear_arith);
    assert(m * (ONE as int) == (ONE as int) * m) by (nonlinear_arith);
    assert((-m) * (ONE as int) == (ONE as int) * (-m)) by (nonlinear_arith);
}

} // verus!

//! Polar coordinates: headings, and the change to Cartesian coordinates.
use crate::fixed::{
    div_floor, fx_mul, lemma_fx_mul_bounded, mul_fixed, to_grid, ONE, PRODUCT_PER_GRID,
    UNITS_PER_GRID,
};
use crate::geometry::Point;
use vstd::prelude::*;

verus! {

/// How far the squared length of a heading may differ from one; it allows for
/// the rounding of both components to the nearest billionth.
pub const HEADING_TOLERANCE: i64 = 2_000_000_000;


/// The unit vector of an angle: its cosine and sine in fixed point.
#[derive(Clone, Copy, Debug, PartialEq, Eq, Structural)]
pub struct Heading {
    pub cos: i64,
    pub sin: i64,
}

impl Heading {
    /// Both components have magnitude at most one, and the squared length is
    /// one up to rounding.
    pub open spec fn wf(self) -> bool {
        &&& -ONE <= self.cos <= ONE
        &&& -ONE <= self.sin <= ONE
        &&& -HEADING_TOLERANCE <= self.cos * self.cos + self.sin * self.sin - ONE * ONE
            <= HEADING_TOLERANCE
    }

    /// The heading that points the other way: half a turn on.
    pub open spec fn opposite(self) -> Heading {
        Heading { cos: (-self.cos) as i64, sin: (-self.sin) as i64 }
    }

    /// Whether the heading is well formed.
    pub fn is_wf(&self) -> (ok: bool)
        ensures
            ok == self.wf(),
    {
        if self.cos < -ONE || self.cos > ONE || self.sin < -ONE || self.sin > ONE {
            return false;
        }
        proof {
            crate::geometry::lemma_square_bound(self.cos as int, ONE as int);
            crate::geometry::lemma_square_bound(self.sin as int, ONE as int);
        }
        let c: i128 = self.cos as i128;
        let s: i128 = self.sin as i128;
        let unit: i128 = ONE as i128;
        let excess: i128 = c * c + s * s - unit * unit;
        -(HEADING_TOLERANCE as i128) <= excess && excess <= HEADING_TOLERANCE as i128
    }

    /// The heading with the given components, if they form one.
    pub fn new(cos: i64, sin: i64) -> (heading: Option<Heading>)
        ensures
            heading == if (Heading { cos, sin }).wf() {
                Some(Heading { cos, sin })
            } else {
                None
            },
    {
        let h = Heading { cos, sin };
        if h.is_wf() {
            Some(h)
        } else {
            None
        }
    }
}

/// One Cartesian coordinate of a polar position: the radius times the
/// matching component of the heading, on the grid.
pub open spec fn polar_coord(radius: int, component: int) -> int {
    to_grid(fx_mul(radius, component))
}

/// The Cartesian position, on the grid, of the polar position `radius` along
/// `heading`.
pub open spec fn polar_point(radius: int, heading: Heading) -> Point {
    Point {
        x: polar_coord(radius, heading.cos as int) as i64,
        y: polar_coord(radius, heading.sin as int) as i64,
    }
}

/// A polar coordinate fits in 64 bits, and is no farther from zero than the
/// radius on the grid.
pub proof fn lemma_polar_coord_bounded(radius: int, component: int, m: int)
    requires
        -m <= radius <= m,
        -ONE <= component <= ONE,
    ensures
        to_grid(-m) <= polar_coord(radius, component) <= to_grid(m),
{
    lemma_fx_mul_bounded(radius, component, m);
    let v = fx_mul(radius, component);
    vstd::arithmetic::div_mod::lemma_div_is_ordered(v, m, UNITS_PER_GRID as int);
    vstd::arithmetic::div_mod::lemma_div_is_ordered(-m, v, UNITS_PER_GRID as int);
}

/// One coordinate of `poltocart`.
pub fn polar_component(radius: i64, component: i64) -> (v: i64)
    requires
        -ONE <= component <= ONE,
    ensures
        v == polar_coord(radius as int, component as int),
{
    proof {
        lemma_polar_coord_bounded(radius as int, component as int, 0x8000_0000_0000_0000);
    }
    let product: i128 = mul_fixed(radius, component);
    let v: i128 = div_floor(product, UNITS_PER_GRID as i128);
    v as i64
}

/// Polar to Cartesian: the position at distance `radius` from the origin in
/// the direction `heading`. A negative radius gives the point opposite.
pub fn poltocart(radius: i64, heading: Heading) -> (p: Point)
    requires
        heading.wf(),
    ensures
        p == polar_point(radius as int, heading),
{
    Point { x: polar_component(radius, heading.cos), y: polar_component(radius, heading.sin) }
}

/// The magnitude of an integer.
pub open spec fn magnitude(v: int) -> int {
    if v < 0 {
        -v
    } else {
        v
    }
}

/// The square of a value that was rounded down by less than `d`.
pub proof fn lemma_rounded_square(a: int, t: int, d: int)
    by (nonlinear_arith)
    requires
        0 <= t < d,
    ensures
        (a - t) * (a - t) <= a * a + 2 * (magnitude(a) * d) + d * d,
        (a - t) * (a - t) >= a * a - 2 * (magnitude(a) * d),
{
}

/// The squares of the two products of a radius with the components of a
/// heading add up to the squared radius times the squared length of the
/// heading.
proof fn lemma_products_squared(r: int, c: int, s: int)
    ensures
        (r * c) * (r * c) + (r * s) * (r * s) == (r * r) * (c * c + s * s),
{
    assert((r * c) * (r * c) == (r * r) * (c * c)) by (nonlinear_arith);
    assert((r * s) * (r * s) == (r * r) * (s * s)) by (nonlinear_arith);
    assert((r * r) * (c * c) + (r * r) * (s * s) == (r * r) * (c * c + s * s))
        by (nonlinear_arith);
}

/// How far the distance of a position from the origin may differ from a
/// polar radius of magnitude `m`, in state units: five grid units for the
/// rounding of the two coordinates, and a billionth of the radius for the
/// rounding of the heading.
pub open spec fn radius_slack(m: int) -> int {
    5 * UNITS_PER_GRID + m / (ONE as int)
}

/// One of the two components of a heading is at least seven tenths long.
proof fn lemma_heading_has_a_long_component(heading: Heading)
    requires
        heading.wf(),
    ensures
        heading.cos >= 700_000_000 || heading.cos <= -700_000_000 || heading.sin >= 700_000_000
            || heading.sin <= -700_000_000,
{
    if -700_000_000 < heading.cos < 700_000_000 && -700_000_000 < heading.sin < 700_000_000 {
        crate::geometry::lemma_square_bound(heading.cos as int, 700_000_000);
        crate::geometry::lemma_square_bound(heading.sin as int, 700_000_000);
    }
}

/// A coordinate whose product is at least three and a half grid units long
/// is at least three grid units long.
proof fn lemma_long_product_long_coordinate(radius: int, component: int)
    requires
        radius >= 5 * UNITS_PER_GRID || radius <= -5 * UNITS_PER_GRID,
        component >= 700_000_000 || component <= -700_000_000,
    ensures
        polar_coord(radius, component) * polar_coord(radius, component) >= 9,
{
    let a = radius * component;
    assert(a >= 3_500_000_000_000_000 || a <= -3_500_000_000_000_000) by (nonlinear_arith)
        requires
            a == radius * component,
            radius >= 5_000_000 || radius <= -5_000_000,
            component >= 700_000_000 || component <= -700_000_000,
    ;
    let x = polar_coord(radius, component);
    assert(x >= 3 || x <= -3);
    assert(x * x >= 9) by (nonlinear_arith)
        requires
            x >= 3 || x <= -3,
    ;
}

/// The change from polar to Cartesian coordinates keeps the distance from
/// the origin, up to rounding, for every radius: the position lies within
/// `radius_slack` of the circle of the polar radius.
///
/// Both sides are in state units: the squared distance of the position is
/// scaled by the square of `UNITS_PER_GRID`.
pub proof fn lemma_radius_recovered(radius: int, heading: Heading)
    requires
        heading.wf(),
        i64::MIN <= radius <= i64::MAX,
    ensures
        ({
            let p = polar_point(radius, heading);
            let far = UNITS_PER_GRID * UNITS_PER_GRID * (p.x * p.x + p.y * p.y);
            let m = magnitude(radius);
            let k = radius_slack(m);
            &&& far <= (m + k) * (m + k)
            &&& m >= k ==> far >= (m - k) * (m - k)
        }),
{
    let one = ONE as int;
    let grid = UNITS_PER_GRID as int;
    let whole = PRODUCT_PER_GRID as int;
    assert(whole == one * grid) by (nonlinear_arith)
        requires
            whole == 1_000_000_000_000_000,
            one == 1_000_000_000,
            grid == 1_000_000,
    ;
    let (c, s) = (heading.cos as int, heading.sin as int);
    let m = magnitude(radius);
    lemma_polar_coord_bounded(radius, c, 0x8000_0000_0000_0000);
    lemma_polar_coord_bounded(radius, s, 0x8000_0000_0000_0000);
    let p = polar_point(radius, heading);
    let (x, y) = (polar_coord(radius, c), polar_coord(radius, s));
    assert(p.x == x && p.y == y);
    // Each coordinate, back in the units of the products, is the product
    // rounded down by less than `whole`.
    let (a, b) = (radius * c, radius * s);
    let (tx, ty) = (a - whole * x, b - whole * y);
    assert(0 <= tx < whole && 0 <= ty < whole);
    lemma_rounded_square(a, tx, whole);
    lemma_rounded_square(b, ty, whole);
    crate::fixed::lemma_product_bound(radius, c, m, one);
    crate::fixed::lemma_product_bound(radius, s, m, one);
    assert(magnitude(a) <= m * one && magnitude(b) <= m * one);
    assert(magnitude(a) * whole <= (m * one) * whole) by (nonlinear_arith)
        requires
            magnitude(a) <= m * one,
            whole > 0,
    ;
    assert(magnitude(b) * whole <= (m * one) * whole) by (nonlinear_arith)
        requires
            magnitude(b) <= m * one,
            whole > 0,
    ;
    // The products' squares add up to the squared radius, up to the
    // heading's tolerance.
    let rr = radius * radius;
    let q = c * c + s * s;
    lemma_products_squared(radius, c, s);
    assert(rr == m * m) by (nonlinear_arith)
        requires
            rr == radius * radius,
            m == magnitude(radius),
    ;
    assert(rr * (one * one - 2 * one) <= rr * q <= rr * (one * one + 2 * one))
        by (nonlinear_arith)
        requires
            0 <= rr,
            rr == m * m,
            one * one - 2 * one <= q <= one * one + 2 * one,
    ;
    assert(rr * (one * one + 2 * one) == (one * one) * rr + 2 * (one * rr)) by (nonlinear_arith);
    assert(rr * (one * one - 2 * one) == (one * one) * rr - 2 * (one * rr)) by (nonlinear_arith);
    // Gather: the squared distance in the units of the products.
    let wide = (whole * x) * (whole * x) + (whole * y) * (whole * y);
    assert(wide == a * a + b * b - ((a * a) - (a - tx) * (a - tx)) - ((b * b) - (b - ty) * (b
        - ty)));
    let far = grid * grid * (x * x + y * y);
    let n = x * x + y * y;
    assert((whole * x) * (whole * x) == (whole * whole) * (x * x)) by (nonlinear_arith);
    assert((whole * y) * (whole * y) == (whole * whole) * (y * y)) by (nonlinear_arith);
    assert((whole * whole) * (x * x) + (whole * whole) * (y * y) == (whole * whole) * n)
        by (nonlinear_arith)
        requires
            n == x * x + y * y,
    ;
    assert(whole * whole == (one * one) * (grid * grid)) by (nonlinear_arith)
        requires
            whole == one * grid,
    ;
    vstd::arithmetic::mul::lemma_mul_is_associative(one * one, grid * grid, n);
    assert(wide == (one * one) * far);
    assert((m * one) * whole == whole * (one * m)) by (nonlinear_arith);
    // The slack: four grid units and a rest that, taken times one, is at
    // least the radius.
    let k = radius_slack(m);
    let rest = k - 4 * grid;
    assert(one * rest >= m);
    let (km, kk, rm) = (k * m, k * k, rest * m);
    assert(km == 4 * (grid * m) + rm) by (nonlinear_arith)
        requires
            km == k * m,
            rm == rest * m,
            k == 4 * grid + rest,
    ;
    assert(one * rm >= rr) by (nonlinear_arith)
        requires
            one * rest >= m,
            m >= 0,
            rm == rest * m,
            rr == m * m,
    ;
    assert(kk >= 16 * (grid * grid)) by (nonlinear_arith)
        requires
            kk == k * k,
            k >= 4 * grid,
            grid > 0,
    ;
    let outer = (m + k) * (m + k);
    assert(outer == rr + 2 * km + kk) by (nonlinear_arith)
        requires
            outer == (m + k) * (m + k),
            rr == m * m,
            km == k * m,
            kk == k * k,
    ;
    assert((one * one) * far <= (one * one) * outer);
    assert(far <= outer) by (nonlinear_arith)
        requires
            (one * one) * far <= (one * one) * outer,
            one > 0,
    ;
    if m >= k {
        let inner = (m - k) * (m - k);
        assert(inner == rr - 2 * km + kk) by (nonlinear_arith)
            requires
                inner == (m - k) * (m - k),
                rr == m * m,
                km == k * m,
                kk == k * k,
        ;
        if m >= 8 * grid {
            // The square of the slack is small against the radius.
            let e = m / one;
            assert(k == 5 * grid + e && 0 <= e && one * e <= m && e <= 10 * one);
            assert(kk == 25 * (grid * grid) + 10 * (grid * e) + e * e) by (nonlinear_arith)
                requires
                    kk == k * k,
                    k == 5 * grid + e,
            ;
            assert(e * e <= 10 * (one * e)) by (nonlinear_arith)
                requires
                    0 <= e <= 10 * one,
            ;
            assert(8 * kk <= 29 * (grid * m));
            assert((one * one) * far >= (one * one) * inner);
            assert(far >= inner) by (nonlinear_arith)
                requires
                    (one * one) * far >= (one * one) * inner,
                    one > 0,
            ;
        } else {
            // A radius this short has a slack of five grid units, and the
            // position is at least three grid units from the origin.
            assert(k == 5 * grid);
            lemma_heading_has_a_long_component(heading);
            if c >= 700_000_000 || c <= -700_000_000 {
                lemma_long_product_long_coordinate(radius, c);
            } else {
                lemma_long_product_long_coordinate(radius, s);
            }
            assert(x * x >= 0 && y * y >= 0) by (nonlinear_arith);
            assert(n >= 9);
            assert(inner <= 9 * (grid * grid)) by (nonlinear_arith)
                requires
                    inner == (m - k) * (m - k),
                    0 <= m - k <= 3 * grid,
            ;
        }
    }
}

/// A negative radius is a turn by half a turn: the position at `-radius`
/// along a heading is the position at `radius` along the opposite heading.
pub proof fn lemma_negative_radius_turns_half(radius: int, heading: Heading)
    requires
        heading.wf(),
    ensures
        heading.opposite().wf(),
        polar_point(-radius, heading) == polar_point(radius, heading.opposite()),
{
    let (c, s) = (heading.cos as int, heading.sin as int);
    assert((-c) * (-c) == c * c && (-s) * (-s) == s * s) by (nonlinear_arith);
    assert((-radius) * c == radius * (-c) && (-radius) * s == radius * (-s)) by (nonlinear_arith);
}

/// One coordinate under a change of sign of the radius: the negative of
/// what it was, or one grid unit below that where the coordinate was
/// rounded.
proof fn lemma_coordinate_mirrors(radius: int, component: int)
    ensures
        polar_coord(-radius, component) == -polar_coord(radius, component) || polar_coord(
            -radius,
            component,
        ) == -polar_coord(radius, component) - 1,
        (radius * component) % (PRODUCT_PER_GRID as int) == 0 ==> polar_coord(-radius, component)
            == -polar_coord(radius, component),
{
    assert((-radius) * component == -(radius * component)) by (nonlinear_arith);
}

/// A negative radius mirrors the position through the origin, up to
/// rounding. Coordinates are rounded down, so each coordinate of the
/// position at `-radius` is the negative of the coordinate at `radius`, or
/// one grid unit below it; it is the negative exactly where the coordinate
/// at `radius` was not rounded.
pub proof fn lemma_negative_radius_mirrors(radius: int, heading: Heading)
    requires
        heading.wf(),
        i64::MIN < radius <= i64::MAX,
    ensures
        ({
            let p = polar_point(radius, heading);
            let q = polar_point(-radius, heading);
            &&& q.x == -p.x || q.x == -p.x - 1
            &&& q.y == -p.y || q.y == -p.y - 1
            &&& (radius * heading.cos) % (PRODUCT_PER_GRID as int) == 0 ==> q.x == -p.x
            &&& (radius * heading.sin) % (PRODUCT_PER_GRID as int) == 0 ==> q.y == -p.y
        }),
{
    let (c, s) = (heading.cos as int, heading.sin as int);
    lemma_polar_coord_bounded(radius, c, 0x8000_0000_0000_0000);
    lemma_polar_coord_bounded(radius, s, 0x8000_0000_0000_0000);
    lemma_polar_coord_bounded(-radius, c, 0x8000_0000_0000_0000);
    lemma_polar_coord_bounded(-radius, s, 0x8000_0000_0000_0000);
    lemma_coordinate_mirrors(radius, c);
    lemma_coordinate_mirrors(radius, s);
}

/// The change from polar to Cartesian coordinates keeps the direction, up to
/// rounding: the position lies within two grid units of the line through the
/// origin along the heading, and not behind the heading for a radius that is
/// not negative, nor ahead of it for one that is not positive.
pub proof fn lemma_direction_kept(radius: int, heading: Heading)
    requires
        heading.wf(),
        i64::MIN <= radius <= i64::MAX,
    ensures
        ({
            let p = polar_point(radius, heading);
            let across = p.x * heading.sin - p.y * heading.cos;
            let along = p.x * heading.cos + p.y * heading.sin;
            &&& -2 * ONE <= across <= 2 * ONE
            &&& radius >= 0 ==> along >= -2 * ONE
            &&& radius <= 0 ==> along <= 2 * ONE
        }),
{
    let one = ONE as int;
    let whole = PRODUCT_PER_GRID as int;
    let (c, s) = (heading.cos as int, heading.sin as int);
    lemma_polar_coord_bounded(radius, c, 0x8000_0000_0000_0000);
    lemma_polar_coord_bounded(radius, s, 0x8000_0000_0000_0000);
    let p = polar_point(radius, heading);
    let (x, y) = (polar_coord(radius, c), polar_coord(radius, s));
    assert(p.x == x && p.y == y);
    let (a, b) = (radius * c, radius * s);
    let (tx, ty) = (a - whole * x, b - whole * y);
    assert(0 <= tx < whole && 0 <= ty < whole);
    crate::fixed::lemma_product_bound(tx, s, whole, one);
    crate::fixed::lemma_product_bound(ty, c, whole, one);
    crate::fixed::lemma_product_bound(tx, c, whole, one);
    crate::fixed::lemma_product_bound(ty, s, whole, one);
    let across = x * s - y * c;
    let along = x * c + y * s;
    assert(a * s == b * c) by (nonlinear_arith)
        requires
            a == radius * c,
            b == radius * s,
    ;
    assert(whole * across == (a - tx) * s - (b - ty) * c) by (nonlinear_arith)
        requires
            across == x * s - y * c,
            whole * x == a - tx,
            whole * y == b - ty,
    ;
    assert((a - tx) * s - (b - ty) * c == a * s - b * c - tx * s + ty * c) by (nonlinear_arith);
    assert(-2 * (whole * one) <= whole * across <= 2 * (whole * one));
    assert(whole * along == (a - tx) * c + (b - ty) * s) by (nonlinear_arith)
        requires
            along == x * c + y * s,
            whole * x == a - tx,
            whole * y == b - ty,
    ;
    assert((a - tx) * c + (b - ty) * s == a * c + b * s - tx * c - ty * s) by (nonlinear_arith);
    let q = c * c + s * s;
    assert(a * c + b * s == radius * q) by (nonlinear_arith)
        requires
            a == radius * c,
            b == radius * s,
            q == c * c + s * s,
    ;
    assert(q >= 0) by (nonlinear_arith)
        requires
            q == c * c + s * s,
    ;
    assert(radius >= 0 ==> radius * q >= 0) by (nonlinear_arith)
        requires
            q >= 0,
    ;
    assert(radius <= 0 ==> radius * q <= 0) by (nonlinear_arith)
        requires
            q >= 0,
    ;
}

} // verus!

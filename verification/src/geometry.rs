//! Cartesian geometry on the grid: points, and the two tests of a curve
//! against the bird's circular hit area.
use vstd::prelude::*;

verus! {

/// The largest coordinate magnitude for which the segment test is defined.
/// With every coordinate inside this bound all intermediate products of the
/// test fit in 128 bits.
pub const GRID_LIMIT: i64 = 1_073_741_824;

/// A point of the plane, in grid units.
#[derive(Clone, Copy, Debug, PartialEq, Eq, Structural)]
pub struct Point {
    pub x: i64,
    pub y: i64,
}

impl Point {
    /// Both coordinates lie within `limit` of the origin.
    pub open spec fn within(self, limit: int) -> bool {
        &&& -limit <= self.x <= limit
        &&& -limit <= self.y <= limit
    }

    /// Both coordinates lie within `GRID_LIMIT` of the origin.
    pub open spec fn in_grid(self) -> bool {
        self.within(GRID_LIMIT as int)
    }

    /// Whether both coordinates lie within `GRID_LIMIT` of the origin.
    pub fn is_in_grid(&self) -> (ok: bool)
        ensures
            ok == self.in_grid(),
    {
        -GRID_LIMIT <= self.x && self.x <= GRID_LIMIT && -GRID_LIMIT <= self.y && self.y
            <= GRID_LIMIT
    }
}

/// The squared Euclidean distance between two points.
pub open spec fn dist_sq(p: Point, q: Point) -> int {
    (p.x - q.x) * (p.x - q.x) + (p.y - q.y) * (p.y - q.y)
}

/// The point lies in the closed disc of the given centre and radius. A
/// negative radius describes the empty disc.
pub open spec fn point_in_circle(p: Point, c: Point, r: int) -> bool {
    r >= 0 && dist_sq(p, c) <= r * r
}

/// `m * m` times the squared distance from `c` to the point of the segment
/// from `p1` to `p2` at parameter `n / m`.
pub open spec fn gap_sq_scaled(p1: Point, p2: Point, c: Point, n: int, m: int) -> int {
    let x = m * (p1.x - c.x) + n * (p2.x - p1.x);
    let y = m * (p1.y - c.y) + n * (p2.y - p1.y);
    x * x + y * y
}

/// The point of the segment at the rational parameter `n / m`, which lies in
/// `[0, 1]`, is within `r` of `c`.
pub open spec fn touches_at(p1: Point, p2: Point, c: Point, r: int, n: int, m: int) -> bool {
    &&& 0 <= n <= m
    &&& 0 < m
    &&& gap_sq_scaled(p1, p2, c, n, m) <= r * r * (m * m)
}

/// The segment from `p1` to `p2` has a point in the closed disc of centre `c`
/// and radius `r`: its nearest approach to `c` is at most `r`. A segment
/// that lies wholly inside the circle meets it too, though it crosses no
/// border: the bird's hit area is the disc, not its rim.
///
/// The parameter ranges over the rationals of `[0, 1]`. Nothing is lost by
/// that: on integer coordinates the nearest point of the segment is an end
/// point or the foot of the perpendicular from `c`, and each has a rational
/// parameter.
pub open spec fn segment_meets_circle(p1: Point, p2: Point, c: Point, r: int) -> bool {
    r >= 0 && exists|n: int, m: int| #[trigger] touches_at(p1, p2, c, r, n, m)
}

/// Point sampling: is `point` inside the circle, its border included?
pub fn point_circle_collision(point: Point, circle_center: Point, circle_radius: i64) -> (hit:
    bool)
    ensures
        hit == point_in_circle(point, circle_center, circle_radius as int),
{
    if circle_radius < 0 {
        return false;
    }
    let r: i128 = circle_radius as i128;
    let dx: i128 = point.x as i128 - circle_center.x as i128;
    let dy: i128 = point.y as i128 - circle_center.y as i128;
    if dx > r || dx < -r || dy > r || dy < -r {
        proof {
            lemma_far_on_one_axis(dx as int, dy as int, r as int);
        }
        return false;
    }
    proof {
        lemma_square_bound(dx as int, r as int);
        lemma_square_bound(dy as int, r as int);
        lemma_square_bound(r as int, 0x7fff_ffff_ffff_ffff);
    }
    dx * dx + dy * dy <= r * r
}

/// Segment intersection: does the segment from `p1` to `p2` come within
/// `circle_radius` of `circle_center`, the border included?
///
/// The squared gap along the segment is the quadratic `c + 2 h t + a t^2`
/// in the parameter `t`. The segment meets the circle if the gap is not
/// positive at an end or, where the quadratic has its least value inside
/// the segment, if its discriminant is not negative. Nothing is divided, so
/// a segment of length zero needs no care: it is tested as the single point
/// it is.
pub fn segment_circle_intersection(
    p1: Point,
    p2: Point,
    circle_center: Point,
    circle_radius: i64,
) -> (hit: bool)
    requires
        p1.in_grid(),
        p2.in_grid(),
        circle_center.in_grid(),
    ensures
        hit == segment_meets_circle(p1, p2, circle_center, circle_radius as int),
{
    if circle_radius < 0 {
        return false;
    }
    let r: i128 = circle_radius as i128;
    let fx: i128 = p1.x as i128 - circle_center.x as i128;
    let fy: i128 = p1.y as i128 - circle_center.y as i128;
    let dx: i128 = p2.x as i128 - p1.x as i128;
    let dy: i128 = p2.y as i128 - p1.y as i128;
    let gx: i128 = p2.x as i128 - circle_center.x as i128;
    let gy: i128 = p2.y as i128 - circle_center.y as i128;
    proof {
        lemma_square_bound(r as int, 0x7fff_ffff_ffff_ffff);
        lemma_square_bound(fx as int, 0x8000_0000);
        lemma_square_bound(fy as int, 0x8000_0000);
        lemma_square_bound(dx as int, 0x8000_0000);
        lemma_square_bound(dy as int, 0x8000_0000);
        lemma_square_bound(gx as int, 0x8000_0000);
        lemma_square_bound(gy as int, 0x8000_0000);
        crate::fixed::lemma_product_bound(fx as int, dx as int, 0x8000_0000, 0x8000_0000);
        crate::fixed::lemma_product_bound(fy as int, dy as int, 0x8000_0000, 0x8000_0000);
    }
    let rr: i128 = r * r;
    // The gap at the two ends, and the coefficients of the gap along the
    // segment: gap(t) = c + 2 h t + a t^2.
    let c: i128 = fx * fx + fy * fy - rr;
    let e: i128 = gx * gx + gy * gy - rr;
    let a: i128 = dx * dx + dy * dy;
    let h: i128 = fx * dx + fy * dy;
    if c <= 0 {
        proof {
            assert(touches_at(p1, p2, circle_center, circle_radius as int, 0, 1));
        }
        return true;
    }
    if e <= 0 {
        proof {
            assert(touches_at(p1, p2, circle_center, circle_radius as int, 1, 1));
        }
        return true;
    }
    proof {
        lemma_end_gap(fx as int, fy as int, dx as int, dy as int, r as int);
    }
    if h < 0 && -h < a {
        proof {
            crate::fixed::lemma_product_bound(
                h as int,
                h as int,
                0x8000_0000_0000_0000,
                0x8000_0000_0000_0000,
            );
            crate::fixed::lemma_product_bound(
                a as int,
                c as int,
                0x8000_0000_0000_0000,
                0x8000_0000_0000_0000,
            );
        }
        if h * h >= a * c {
            proof {
                lemma_foot_touches(a as int, h as int, c as int);
                lemma_gap_as_form(
                    fx as int,
                    fy as int,
                    dx as int,
                    dy as int,
                    r as int,
                    -h as int,
                    a as int,
                );
                assert(touches_at(
                    p1,
                    p2,
                    circle_center,
                    circle_radius as int,
                    -h as int,
                    a as int,
                ));
            }
            return true;
        }
    }
    proof {
        assert forall|n: int, m: int| !#[trigger] touches_at(
            p1,
            p2,
            circle_center,
            circle_radius as int,
            n,
            m,
        ) by {
            if 0 <= n <= m && 0 < m {
                lemma_gap_as_form(fx as int, fy as int, dx as int, dy as int, r as int, n, m);
                lemma_form_positive(a as int, h as int, c as int, n, m);
            }
        }
    }
    false
}

/// The gap along the segment as a quadratic form in the parameter's
/// numerator `n` and denominator `m`: `c m^2 + 2 h m n + a n^2`, where
/// `a = |d|^2`, `h = f . d` and `c = |f|^2 - r^2` for `f = p1 - c` and
/// `d = p2 - p1`.
pub open spec fn gap_form(a: int, h: int, c: int, n: int, m: int) -> int {
    c * (m * m) + 2 * (h * (m * n)) + a * (n * n)
}

/// The square of `m f + n d`, with the products of like factors gathered.
pub proof fn lemma_binomial_square(m: int, f: int, n: int, d: int)
    ensures
        (m * f + n * d) * (m * f + n * d) == (f * f) * (m * m) + 2 * ((f * d) * (m * n)) + (d * d)
            * (n * n),
{
    let u = m * f;
    let v = n * d;
    assert((u + v) * (u + v) == u * u + 2 * (u * v) + v * v) by (nonlinear_arith);
    assert(u * u == (f * f) * (m * m)) by (nonlinear_arith)
        requires
            u == m * f,
    ;
    assert(v * v == (d * d) * (n * n)) by (nonlinear_arith)
        requires
            v == n * d,
    ;
    assert(u * v == (f * d) * (m * n)) by (nonlinear_arith)
        requires
            u == m * f,
            v == n * d,
    ;
}

/// The scaled gap of the segment, less the scaled square of the radius, is
/// the quadratic form of its coefficients.
pub proof fn lemma_gap_as_form(fx: int, fy: int, dx: int, dy: int, r: int, n: int, m: int)
    ensures
        (m * fx + n * dx) * (m * fx + n * dx) + (m * fy + n * dy) * (m * fy + n * dy) - r * r * (m
            * m) == gap_form(
            dx * dx + dy * dy,
            fx * dx + fy * dy,
            fx * fx + fy * fy - r * r,
            n,
            m,
        ),
{
    lemma_binomial_square(m, fx, n, dx);
    lemma_binomial_square(m, fy, n, dy);
    let mm = m * m;
    let mn = m * n;
    let nn = n * n;
    let (x2, y2, rr) = (fx * fx, fy * fy, r * r);
    let (px, py) = (fx * dx, fy * dy);
    let (ex, ey) = (dx * dx, dy * dy);
    assert((x2 + y2 - rr) * mm == x2 * mm + y2 * mm - rr * mm) by (nonlinear_arith);
    assert((px + py) * mn == px * mn + py * mn) by (nonlinear_arith);
    assert((ex + ey) * nn == ex * nn + ey * nn) by (nonlinear_arith);
}

/// The gap at the far end of the segment, in terms of the coefficients.
pub proof fn lemma_end_gap(fx: int, fy: int, dx: int, dy: int, r: int)
    ensures
        (fx + dx) * (fx + dx) + (fy + dy) * (fy + dy) - r * r == (dx * dx + dy * dy) + 2 * (fx * dx
            + fy * dy) + (fx * fx + fy * fy - r * r),
{
    assert((fx + dx) * (fx + dx) == fx * fx + 2 * (fx * dx) + dx * dx) by (nonlinear_arith);
    assert((fy + dy) * (fy + dy) == fy * fy + 2 * (fy * dy) + dy * dy) by (nonlinear_arith);
}

/// Where the foot of the perpendicular lies strictly inside the segment and
/// the discriminant is not negative, the gap at the foot is not positive.
pub proof fn lemma_foot_touches(a: int, h: int, c: int)
    requires
        h < 0,
        -h < a,
        h * h >= a * c,
    ensures
        gap_form(a, h, c, -h, a) <= 0,
{
    let aa = a * a;
    let hh = h * h;
    let ac = a * c;
    // gap_form = c a^2 - 2 a h^2 + a h^2 = a (a c - h^2)
    assert(c * aa == a * ac) by (nonlinear_arith)
        requires
            aa == a * a,
            ac == a * c,
    ;
    assert(h * (a * (-h)) == -(a * hh)) by (nonlinear_arith)
        requires
            hh == h * h,
    ;
    assert((-h) * (-h) == hh) by (nonlinear_arith)
        requires
            hh == h * h,
    ;
    assert(a * ac - a * hh == a * (ac - hh)) by (nonlinear_arith);
    assert(a * (ac - hh) <= 0) by (nonlinear_arith)
        requires
            a > 0,
            ac - hh <= 0,
    ;
}

/// With both ends outside the circle, the gap stays positive along the whole
/// segment unless the foot of the perpendicular lies strictly inside the
/// segment and the discriminant is not negative.
pub proof fn lemma_form_positive(a: int, h: int, c: int, n: int, m: int)
    requires
        a >= 0,
        c > 0,
        a + 2 * h + c > 0,
        0 <= n <= m,
        0 < m,
        !(h < 0 && -h < a && h * h >= a * c),
    ensures
        gap_form(a, h, c, n, m) > 0,
{
    let mm = m * m;
    let mn = m * n;
    let nn = n * n;
    assert(mm > 0 && mn >= 0 && nn >= 0 && mn <= mm && nn <= mn) by (nonlinear_arith)
        requires
            0 <= n <= m,
            0 < m,
            mm == m * m,
            mn == m * n,
            nn == n * n,
    ;
    assert(c * mm > 0) by (nonlinear_arith)
        requires
            c > 0,
            mm > 0,
    ;
    assert(a * nn >= 0) by (nonlinear_arith)
        requires
            a >= 0,
            nn >= 0,
    ;
    if h >= 0 {
        assert(h * mn >= 0) by (nonlinear_arith)
            requires
                h >= 0,
                mn >= 0,
        ;
    } else if -h >= a {
        // The form is at least the far end's gap times m^2:
        // form - e m^2 = 2 (-h) (m^2 - m n) - a (m^2 - n^2) >= a (m - n)^2.
        let e = a + 2 * h + c;
        assert(e * mm == a * mm + 2 * (h * mm) + c * mm) by (nonlinear_arith)
            requires
                e == a + 2 * h + c,
        ;
        assert(e * mm > 0) by (nonlinear_arith)
            requires
                e > 0,
                mm > 0,
        ;
        assert((-h - a) * (mm - mn) >= 0) by (nonlinear_arith)
            requires
                -h - a >= 0,
                mm - mn >= 0,
        ;
        assert((-h - a) * (mm - mn) == -(h * mm) + h * mn - a * mm + a * mn) by (nonlinear_arith);
        assert(mm - 2 * mn + nn == (m - n) * (m - n)) by (nonlinear_arith)
            requires
                mm == m * m,
                mn == m * n,
                nn == n * n,
        ;
        assert(a * (mm - 2 * mn + nn) >= 0) by (nonlinear_arith)
            requires
                a >= 0,
                mm - 2 * mn + nn == (m - n) * (m - n),
        ;
        assert(a * (mm - 2 * mn + nn) == a * mm - 2 * (a * mn) + a * nn) by (nonlinear_arith);
    } else {
        // Completing the square: a * form = (a n + h m)^2 + (a c - h^2) m^2.
        assert(a > 0);
        let form = c * mm + 2 * (h * mn) + a * nn;
        let root = n * a + m * h;
        lemma_binomial_square(n, a, m, h);
        assert(n * m == mn) by (nonlinear_arith)
            requires
                mn == m * n,
        ;
        assert(root * root == (a * a) * nn + 2 * ((a * h) * mn) + (h * h) * mm);
        let (x, y, z) = (c * mm, h * mn, a * nn);
        assert(a * (x + 2 * y + z) == a * x + 2 * (a * y) + a * z) by (nonlinear_arith);
        vstd::arithmetic::mul::lemma_mul_is_associative(a, c, mm);
        vstd::arithmetic::mul::lemma_mul_is_associative(a, h, mn);
        vstd::arithmetic::mul::lemma_mul_is_associative(a, a, nn);
        assert(a * form == (a * c) * mm + 2 * ((a * h) * mn) + (a * a) * nn);
        assert((a * c - h * h) * mm == (a * c) * mm - (h * h) * mm) by (nonlinear_arith);
        assert(a * form == root * root + (a * c - h * h) * mm);
        assert(root * root >= 0) by (nonlinear_arith);
        assert((a * c - h * h) * mm > 0) by (nonlinear_arith)
            requires
                a * c - h * h > 0,
                mm > 0,
        ;
        assert(form > 0) by (nonlinear_arith)
            requires
                a > 0,
                a * form > 0,
        ;
    }
}

/// A segment with an end inside the circle meets it: whatever point sampling
/// reports on the ends of a segment, segment intersection reports too.
pub proof fn lemma_end_in_circle_meets(p1: Point, p2: Point, c: Point, r: int)
    requires
        point_in_circle(p1, c, r) || point_in_circle(p2, c, r),
    ensures
        segment_meets_circle(p1, p2, c, r),
{
    if point_in_circle(p1, c, r) {
        assert(touches_at(p1, p2, c, r, 0, 1));
    } else {
        assert(touches_at(p1, p2, c, r, 1, 1));
    }
}

/// A segment of length zero is tested as the point it is.
pub proof fn lemma_degenerate_segment(p: Point, c: Point, r: int)
    ensures
        segment_meets_circle(p, p, c, r) == point_in_circle(p, c, r),
{
    if point_in_circle(p, c, r) {
        lemma_end_in_circle_meets(p, p, c, r);
    }
    if segment_meets_circle(p, p, c, r) {
        let (n, m) = choose|n: int, m: int| #[trigger] touches_at(p, p, c, r, n, m);
        let fx = p.x - c.x;
        let fy = p.y - c.y;
        lemma_binomial_square(m, fx, n, 0);
        lemma_binomial_square(m, fy, n, 0);
        let mm = m * m;
        assert(mm > 0) by (nonlinear_arith)
            requires
                m > 0,
                mm == m * m,
        ;
        assert((fx * fx) * mm + (fy * fy) * mm == (fx * fx + fy * fy) * mm) by (nonlinear_arith);
        assert(fx * fx + fy * fy <= r * r) by (nonlinear_arith)
            requires
                (fx * fx + fy * fy) * mm <= (r * r) * mm,
                mm > 0,
        ;
    }
}

/// A segment that at some point is at distance exactly `r` from the centre
/// meets the circle: the border counts.
pub proof fn lemma_border_counts(p1: Point, p2: Point, c: Point, r: int, n: int, m: int)
    requires
        r >= 0,
        0 <= n <= m,
        0 < m,
        gap_sq_scaled(p1, p2, c, n, m) == r * r * (m * m),
    ensures
        segment_meets_circle(p1, p2, c, r),
{
    assert(touches_at(p1, p2, c, r, n, m));
}

/// A segment all of whose points are farther than `r` from the centre does
/// not meet the circle.
pub proof fn lemma_outside_misses(p1: Point, p2: Point, c: Point, r: int)
    requires
        forall|n: int, m: int|
            0 <= n <= m && 0 < m ==> #[trigger] gap_sq_scaled(p1, p2, c, n, m) > r * r * (m * m),
    ensures
        !segment_meets_circle(p1, p2, c, r),
{
    assert forall|n: int, m: int| !#[trigger] touches_at(p1, p2, c, r, n, m) by {
        if 0 <= n <= m && 0 < m {
            assert(gap_sq_scaled(p1, p2, c, n, m) > r * r * (m * m));
        }
    }
}

/// A segment whose two ends lie beyond `r` from the centre on the same side
/// of one axis does not meet the circle.
pub proof fn lemma_far_segment_misses(p1: Point, p2: Point, c: Point, r: int)
    requires
        r >= 0,
        (p1.x - c.x > r && p2.x - c.x > r) || (p1.x - c.x < -r && p2.x - c.x < -r) || (p1.y - c.y
            > r && p2.y - c.y > r) || (p1.y - c.y < -r && p2.y - c.y < -r),
    ensures
        !segment_meets_circle(p1, p2, c, r),
{
    assert forall|n: int, m: int| !#[trigger] touches_at(p1, p2, c, r, n, m) by {
        if 0 <= n <= m && 0 < m {
            let x = m * (p1.x - c.x) + n * (p2.x - p1.x);
            let y = m * (p1.y - c.y) + n * (p2.y - p1.y);
            let rm = r * m;
            assert(r * r * (m * m) == rm * rm) by (nonlinear_arith)
                requires
                    rm == r * m,
            ;
            assert(rm >= 0) by (nonlinear_arith)
                requires
                    rm == r * m,
                    r >= 0,
                    m > 0,
            ;
            lemma_blend_beyond(p1.x - c.x, p2.x - c.x, r, n, m);
            lemma_blend_beyond(p1.y - c.y, p2.y - c.y, r, n, m);
            assert(x == m * (p1.x - c.x) + n * ((p2.x - c.x) - (p1.x - c.x)));
            assert(y == m * (p1.y - c.y) + n * ((p2.y - c.y) - (p1.y - c.y)));
            assert(x * x + y * y > rm * rm) by (nonlinear_arith)
                requires
                    rm >= 0,
                    x > rm || x < -rm || y > rm || y < -rm,
            ;
        }
    }
}

/// A blend of two values that both lie beyond `r` on the same side lies
/// beyond `r` as well, scaled by the blend's denominator.
pub proof fn lemma_blend_beyond(f1: int, f2: int, r: int, n: int, m: int)
    requires
        0 <= n <= m,
        0 < m,
    ensures
        f1 > r && f2 > r ==> m * f1 + n * (f2 - f1) > r * m,
        f1 < -r && f2 < -r ==> m * f1 + n * (f2 - f1) < -(r * m),
{
    assert(m * f1 + n * (f2 - f1) == (m - n) * f1 + n * f2) by (nonlinear_arith);
    assert(r * m == (m - n) * r + n * r) by (nonlinear_arith);
    if f1 > r && f2 > r {
        assert((m - n) * f1 >= (m - n) * r && n * f2 >= n * r && ((m - n) * f1 > (m - n) * r || n
            * f2 > n * r)) by (nonlinear_arith)
            requires
                0 <= n <= m,
                0 < m,
                f1 > r,
                f2 > r,
        ;
    }
    if f1 < -r && f2 < -r {
        assert((m - n) * f1 <= -((m - n) * r) && n * f2 <= -(n * r) && ((m - n) * f1 < -((m - n)
            * r) || n * f2 < -(n * r))) by (nonlinear_arith)
            requires
                0 <= n <= m,
                0 < m,
                f1 < -r,
                f2 < -r,
        ;
    }
}

/// A square is bounded by the square of a bound on the magnitude.
pub proof fn lemma_square_bound(x: int, m: int)
    by (nonlinear_arith)
    requires
        -m <= x <= m,
    ensures
        0 <= x * x <= m * m,
{
}

/// A point farther than `r` from the centre along one axis is outside the
/// circle.
pub proof fn lemma_far_on_one_axis(dx: int, dy: int, r: int)
    by (nonlinear_arith)
    requires
        r >= 0,
        dx > r || dx < -r || dy > r || dy < -r,
    ensures
        dx * dx + dy * dy > r * r,
{
}

} // verus!

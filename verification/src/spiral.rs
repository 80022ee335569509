//! The spiral: a curve sampled at uniform steps of radius and angle, scaled
//! by the zoom, and the test of the curve against a circle.
use crate::config::CollisionPolicy;
use crate::fixed::{
    div_floor, fx_mul, lemma_fx_mul_bounded, mul_fixed, to_grid, ONE, UNITS_PER_GRID,
};
use crate::geometry::{
    dist_sq, gap_sq_scaled, lemma_end_in_circle_meets, lemma_far_segment_misses,
    point_circle_collision, point_in_circle, segment_circle_intersection,
    segment_meets_circle, touches_at, Point,
};
use crate::polar::{lemma_polar_coord_bounded, polar_component, polar_coord, Heading};
use vstd::prelude::*;

verus! {

/// How much farther from the centre each sample lies than the one before.
pub const RADIAL_STEP: i64 = 5_000_000_000;

/// How much farther round each sample lies than the one before.
pub const ANGULAR_STEP: i64 = 100_000_000;

/// The number of samples of the standard spiral.
pub const SPIRAL_SAMPLES: usize = 2000;

/// The most samples a spiral may have.
pub const MAX_SAMPLES: usize = 100_000;

/// A bound on the coordinates of every point of a spiral. It is half of
/// `GRID_LIMIT`, which leaves room for a circle around the curve.
pub const CURVE_LIMIT: i64 = 536_870_912;

/// The radius of the bird's hit area at zoom one.
pub const HIT_RADIUS: i64 = 10_000_000_000;

/// The least zoom, a hundredth, from which neighbouring samples of a spiral
/// are known to stay apart.
pub const SHARP_ZOOM: i64 = 10_000_000;

/// The polar radius of sample `i`.
pub open spec fn sample_radius(i: int) -> int {
    i * RADIAL_STEP
}

/// The polar angle of sample `i`.
pub open spec fn sample_angle(i: int) -> int {
    i * ANGULAR_STEP
}

/// Sample `i` of the spiral at the given zoom, where `heading` is the
/// heading of the sample's angle.
pub open spec fn spiral_point(i: int, heading: Heading, zoom: int) -> Point {
    Point {
        x: fx_mul(polar_coord(sample_radius(i), heading.cos as int), zoom) as i64,
        y: fx_mul(polar_coord(sample_radius(i), heading.sin as int), zoom) as i64,
    }
}

/// The spiral at the given zoom, where `headings[i]` is the heading of the
/// angle of sample `i`. It has one point for each heading.
pub open spec fn spiral_points(headings: Seq<Heading>, zoom: int) -> Seq<Point> {
    Seq::new(headings.len(), |i: int| spiral_point(i, headings[i], zoom))
}

/// A table of headings from which a spiral can be drawn.
pub open spec fn headings_wf(headings: Seq<Heading>) -> bool {
    &&& headings.len() <= MAX_SAMPLES
    &&& forall|i: int| 0 <= i < headings.len() ==> (#[trigger] headings[i]).wf()
}

/// Every point of the curve lies within `CURVE_LIMIT` of the origin on both
/// axes.
pub open spec fn curve_in_limit(points: Seq<Point>) -> bool {
    forall|i: int| 0 <= i < points.len() ==> (#[trigger] points[i]).within(CURVE_LIMIT as int)
}

/// The squared distance of a point from the origin.
pub open spec fn length_sq(p: Point) -> int {
    p.x * p.x + p.y * p.y
}

/// Every point of the curve lies farther from the origin than the one
/// before it.
pub open spec fn winds_outward(points: Seq<Point>) -> bool {
    forall|i: int|
        0 <= i && i + 1 < points.len() ==> length_sq(points[i]) < length_sq(
            #[trigger] points[i + 1],
        )
}

/// No two neighbouring points of the curve coincide: the curve has no
/// segment of length zero.
pub open spec fn neighbours_differ(points: Seq<Point>) -> bool {
    forall|i: int| 0 <= i && i + 1 < points.len() ==> points[i] != #[trigger] points[i + 1]
}

/// The radius of the bird's hit area at the given zoom, on the grid.
pub open spec fn hit_radius_at(zoom: int) -> int {
    to_grid(fx_mul(HIT_RADIUS as int, zoom))
}

/// The index of the point that point `i` is joined to: the next one, or
/// itself if it is the last.
pub open spec fn next_index(i: int, len: int) -> int {
    if i + 1 < len {
        i + 1
    } else {
        i
    }
}

/// Point `i` of the curve lies in the circle.
pub open spec fn sample_hit(points: Seq<Point>, c: Point, r: int, i: int) -> bool {
    0 <= i < points.len() && point_in_circle(points[i], c, r)
}

/// The segment from point `i` of the curve to the next comes within the
/// circle. The last point is a segment of length zero.
pub open spec fn segment_hit(points: Seq<Point>, c: Point, r: int, i: int) -> bool {
    0 <= i < points.len() && segment_meets_circle(
        points[i],
        points[next_index(i, points.len() as int)],
        c,
        r,
    )
}

/// Point sampling: some point of the curve lies in the circle.
pub open spec fn curve_meets_sampled(points: Seq<Point>, c: Point, r: int) -> bool {
    exists|i: int| #[trigger] sample_hit(points, c, r, i)
}

/// Segment intersection: some segment of the curve comes within the circle.
pub open spec fn curve_meets_segments(points: Seq<Point>, c: Point, r: int) -> bool {
    exists|i: int| #[trigger] segment_hit(points, c, r, i)
}

/// The curve collides with the circle under the given policy.
pub open spec fn curve_meets(points: Seq<Point>, c: Point, r: int, policy: CollisionPolicy) -> bool {
    match policy {
        CollisionPolicy::PointSampling => curve_meets_sampled(points, c, r),
        CollisionPolicy::SegmentIntersection => curve_meets_segments(points, c, r),
    }
}

/// The polar radius and angle of sample `i`. The heading of the angle is
/// what `generate` expects at index `i` of its table.
pub fn sample_polar(i: usize) -> (polar: (i64, i64))
    requires
        i <= MAX_SAMPLES,
    ensures
        polar.0 == sample_radius(i as int),
        polar.1 == sample_angle(i as int),
{
    let k: i64 = i as i64;
    (k * RADIAL_STEP, k * ANGULAR_STEP)
}

/// Whether a table of headings is one from which a spiral can be drawn.
pub fn check_headings(headings: &Vec<Heading>) -> (ok: bool)
    ensures
        ok == headings_wf(headings@),
{
    if headings.len() > MAX_SAMPLES {
        return false;
    }
    let mut i: usize = 0;
    while i < headings.len()
        invariant
            i <= headings.len(),
            forall|j: int| 0 <= j < i ==> (#[trigger] headings@[j]).wf(),
        decreases headings.len() - i,
    {
        if !headings[i].is_wf() {
            return false;
        }
        i += 1;
    }
    true
}

/// One coordinate of a sample of the spiral.
fn spiral_component(radius: i64, component: i64, zoom: i64) -> (v: i64)
    requires
        0 <= radius <= MAX_SAMPLES * RADIAL_STEP,
        -ONE <= component <= ONE,
        0 <= zoom <= ONE,
    ensures
        v == fx_mul(polar_coord(radius as int, component as int), zoom as int),
        -CURVE_LIMIT <= v <= CURVE_LIMIT,
{
    let base: i64 = polar_component(radius, component);
    proof {
        lemma_polar_coord_bounded(
            radius as int,
            component as int,
            MAX_SAMPLES as int * RADIAL_STEP as int,
        );
        lemma_fx_mul_bounded(base as int, zoom as int, CURVE_LIMIT as int);
    }
    let v: i128 = mul_fixed(base, zoom);
    v as i64
}

/// The spiral at the given zoom: point `i` is the polar position
/// `(i * RADIAL_STEP, i * ANGULAR_STEP)` in Cartesian coordinates, scaled by
/// `zoom`. `headings[i]` must be the heading of the angle of sample `i`; the
/// curve has one point for each.
///
/// The result depends on the arguments alone: the same table and zoom give
/// the same curve, however often it is drawn.
pub fn generate(headings: &Vec<Heading>, zoom: i64) -> (points: Vec<Point>)
    requires
        headings_wf(headings@),
        0 <= zoom <= ONE,
    ensures
        points@ == spiral_points(headings@, zoom as int),
        curve_in_limit(points@),
        zoom >= SHARP_ZOOM ==> winds_outward(points@) && neighbours_differ(points@),
{
    let n: usize = headings.len();
    let mut points: Vec<Point> = Vec::with_capacity(n);
    let mut i: usize = 0;
    while i < n
        invariant
            n == headings.len(),
            headings_wf(headings@),
            0 <= zoom <= ONE,
            i <= n,
            points.len() == i,
            forall|j: int|
                0 <= j < i ==> #[trigger] points@[j] == spiral_point(j, headings@[j], zoom as int),
            forall|j: int| 0 <= j < i ==> (#[trigger] points@[j]).within(CURVE_LIMIT as int),
        decreases n - i,
    {
        let heading: Heading = headings[i];
        assert(heading.wf());
        let (radius, _) = sample_polar(i);
        let x: i64 = spiral_component(radius, heading.cos, zoom);
        let y: i64 = spiral_component(radius, heading.sin, zoom);
        points.push(Point { x, y });
        i += 1;
    }
    assert(points@ =~= spiral_points(headings@, zoom as int));
    proof {
        if zoom >= SHARP_ZOOM {
            lemma_spiral_winds_outward(headings@, zoom as int);
            lemma_spiral_has_no_empty_segment(headings@, zoom as int);
        }
    }
    points
}

/// The radius of the bird's hit area at the given zoom, on the grid.
pub fn hit_radius(zoom: i64) -> (r: i64)
    ensures
        r == hit_radius_at(zoom as int),
        0 <= zoom <= ONE ==> 0 <= r <= to_grid(HIT_RADIUS as int),
{
    proof {
        if 0 <= zoom <= ONE {
            lemma_fx_mul_bounded(HIT_RADIUS as int, zoom as int, HIT_RADIUS as int);
            crate::fixed::lemma_fx_mul_nonnegative(HIT_RADIUS as int, zoom as int);
        }
    }
    let wide: i128 = mul_fixed(HIT_RADIUS, zoom);
    let r: i128 = div_floor(wide, UNITS_PER_GRID as i128);
    r as i64
}

/// Point sampling over a curve: does any of its points lie in the circle?
/// The points are tried in order, and the first hit ends the scan.
pub fn points_hit(points: &Vec<Point>, center: Point, radius: i64) -> (hit: bool)
    ensures
        hit == curve_meets_sampled(points@, center, radius as int),
{
    let mut i: usize = 0;
    while i < points.len()
        invariant
            i <= points.len(),
            forall|j: int| 0 <= j < i ==> !sample_hit(points@, center, radius as int, j),
        decreases points.len() - i,
    {
        if point_circle_collision(points[i], center, radius) {
            assert(sample_hit(points@, center, radius as int, i as int));
            return true;
        }
        i += 1;
    }
    false
}

/// Segment intersection over a curve: does any of its segments come within
/// the circle? The segments are tried in order, and the first hit ends the
/// scan. The centre may lie anywhere, also off the grid.
pub fn segments_hit(points: &Vec<Point>, center: Point, radius: i64) -> (hit: bool)
    requires
        curve_in_limit(points@),
        radius <= CURVE_LIMIT,
    ensures
        hit == curve_meets_segments(points@, center, radius as int),
{
    if radius < 0 {
        return false;
    }
    if !center.is_in_grid() {
        proof {
            assert forall|i: int| !#[trigger] segment_hit(points@, center, radius as int, i) by {
                if 0 <= i < points.len() {
                    let j = next_index(i, points.len() as int);
                    assert(points@[i].within(CURVE_LIMIT as int));
                    assert(points@[j].within(CURVE_LIMIT as int));
                    lemma_far_segment_misses(points@[i], points@[j], center, radius as int);
                }
            }
        }
        return false;
    }
    let n: usize = points.len();
    let mut i: usize = 0;
    while i < n
        invariant
            n == points.len(),
            i <= n,
            curve_in_limit(points@),
            center.in_grid(),
            forall|j: int| 0 <= j < i ==> !segment_hit(points@, center, radius as int, j),
        decreases n - i,
    {
        let j: usize = if i + 1 < n {
            i + 1
        } else {
            i
        };
        assert(points@[i as int].within(CURVE_LIMIT as int));
        assert(points@[j as int].within(CURVE_LIMIT as int));
        if segment_circle_intersection(points[i], points[j], center, radius) {
            assert(segment_hit(points@, center, radius as int, i as int));
            return true;
        }
        i += 1;
    }
    false
}

/// Tests a curve against a circle under the given policy.
pub fn curve_hits(points: &Vec<Point>, center: Point, radius: i64, policy: CollisionPolicy) -> (hit:
    bool)
    requires
        policy == CollisionPolicy::SegmentIntersection ==> curve_in_limit(points@) && radius
            <= CURVE_LIMIT,
    ensures
        hit == curve_meets(points@, center, radius as int, policy),
{
    match policy {
        CollisionPolicy::PointSampling => points_hit(points, center, radius),
        CollisionPolicy::SegmentIntersection => segments_hit(points, center, radius),
    }
}

/// Segment intersection reports every collision that point sampling reports.
pub proof fn lemma_segments_subsume_samples(points: Seq<Point>, c: Point, r: int)
    requires
        curve_meets_sampled(points, c, r),
    ensures
        curve_meets_segments(points, c, r),
{
    let i = choose|i: int| #[trigger] sample_hit(points, c, r, i);
    lemma_end_in_circle_meets(points[i], points[next_index(i, points.len() as int)], c, r);
    assert(segment_hit(points, c, r, i));
}

/// A spiral of fewer samples is the beginning of a spiral of more: a point
/// depends on its own index, its heading and the zoom, and on nothing that
/// was drawn before it.
pub proof fn lemma_spiral_prefix(headings: Seq<Heading>, zoom: int, k: int)
    requires
        0 <= k <= headings.len(),
    ensures
        spiral_points(headings.take(k), zoom) == spiral_points(headings, zoom).take(k),
{
    assert(spiral_points(headings.take(k), zoom) =~= spiral_points(headings, zoom).take(k));
}

/// The squared length of a grid vector after scaling by a zoom, against the
/// squared length before, both in the units of a product: scaling rounds each
/// coordinate down by less than one.
proof fn lemma_scaled_length(x: int, y: int, zoom: int, bound: int)
    requires
        0 <= zoom,
        -bound <= x <= bound,
        -bound <= y <= bound,
    ensures
        (ONE * ONE) * (fx_mul(x, zoom) * fx_mul(x, zoom) + fx_mul(y, zoom) * fx_mul(y, zoom)) <= (
        zoom * zoom) * (x * x + y * y) + 4 * ((bound * zoom) * ONE) + 2 * (ONE * ONE),
        (ONE * ONE) * (fx_mul(x, zoom) * fx_mul(x, zoom) + fx_mul(y, zoom) * fx_mul(y, zoom)) >= (
        zoom * zoom) * (x * x + y * y) - 4 * ((bound * zoom) * ONE),
{
    let one = ONE as int;
    let (a, b) = (x * zoom, y * zoom);
    let (sx, sy) = (fx_mul(x, zoom), fx_mul(y, zoom));
    let (ex, ey) = (a - one * sx, b - one * sy);
    assert(0 <= ex < one && 0 <= ey < one);
    crate::polar::lemma_rounded_square(a, ex, one);
    crate::polar::lemma_rounded_square(b, ey, one);
    crate::fixed::lemma_product_bound(x, zoom, bound, zoom);
    crate::fixed::lemma_product_bound(y, zoom, bound, zoom);
    let (ma, mb) = (crate::polar::magnitude(a), crate::polar::magnitude(b));
    assert(ma <= bound * zoom && mb <= bound * zoom);
    assert(ma * one <= (bound * zoom) * one && mb * one <= (bound * zoom) * one)
        by (nonlinear_arith)
        requires
            ma <= bound * zoom,
            mb <= bound * zoom,
            one > 0,
    ;
    assert(a * a == (zoom * zoom) * (x * x)) by (nonlinear_arith)
        requires
            a == x * zoom,
    ;
    assert(b * b == (zoom * zoom) * (y * y)) by (nonlinear_arith)
        requires
            b == y * zoom,
    ;
    assert((zoom * zoom) * (x * x) + (zoom * zoom) * (y * y) == (zoom * zoom) * (x * x + y * y))
        by (nonlinear_arith);
    assert((one * sx) * (one * sx) == (one * one) * (sx * sx)) by (nonlinear_arith);
    assert((one * sy) * (one * sy) == (one * one) * (sy * sy)) by (nonlinear_arith);
    assert((one * one) * (sx * sx) + (one * one) * (sy * sy) == (one * one) * (sx * sx + sy * sy))
        by (nonlinear_arith);
}

/// At a zoom of at least `SHARP_ZOOM` the spiral winds outward: a sample
/// lies farther from the origin than the one before it, whatever their
/// headings, because the radius grows by more from one sample to the next
/// than rounding can take away. So the two are different points.
pub proof fn lemma_neighbours_differ(i: int, here: Heading, next: Heading, zoom: int)
    requires
        0 <= i < MAX_SAMPLES,
        here.wf(),
        next.wf(),
        SHARP_ZOOM <= zoom <= ONE,
    ensures
        length_sq(spiral_point(i, here, zoom)) < length_sq(spiral_point(i + 1, next, zoom)),
        spiral_point(i, here, zoom) != spiral_point(i + 1, next, zoom),
{
    let one = ONE as int;
    let grid = UNITS_PER_GRID as int;
    // The radii of the two samples, on the grid.
    let p = 5000 * i;
    let t = p + 5000;
    assert(sample_radius(i) == grid * p && sample_radius(i + 1) == grid * t);
    let (x1, y1) = (
        polar_coord(sample_radius(i), here.cos as int),
        polar_coord(sample_radius(i), here.sin as int),
    );
    let (x2, y2) = (
        polar_coord(sample_radius(i + 1), next.cos as int),
        polar_coord(sample_radius(i + 1), next.sin as int),
    );
    lemma_polar_coord_bounded(sample_radius(i), here.cos as int, grid * p);
    lemma_polar_coord_bounded(sample_radius(i), here.sin as int, grid * p);
    lemma_polar_coord_bounded(sample_radius(i + 1), next.cos as int, grid * t);
    lemma_polar_coord_bounded(sample_radius(i + 1), next.sin as int, grid * t);
    // The squared lengths before scaling: the slack of a radius this short
    // is at most six grid units.
    let (n1, n2) = (x1 * x1 + y1 * y1, x2 * x2 + y2 * y2);
    let (a1, a2) = ((p + 6) * (p + 6), (t - 6) * (t - 6));
    crate::polar::lemma_radius_recovered(sample_radius(i), here);
    crate::polar::lemma_radius_recovered(sample_radius(i + 1), next);
    assert(crate::polar::polar_point(sample_radius(i), here).x == x1);
    assert(crate::polar::polar_point(sample_radius(i), here).y == y1);
    assert(crate::polar::polar_point(sample_radius(i + 1), next).x == x2);
    assert(crate::polar::polar_point(sample_radius(i + 1), next).y == y2);
    let (m1, m2) = (grid * p, grid * t);
    assert(crate::polar::magnitude(sample_radius(i)) == m1);
    assert(crate::polar::magnitude(sample_radius(i + 1)) == m2);
    let (k1, k2) = (crate::polar::radius_slack(m1), crate::polar::radius_slack(m2));
    assert(5 * grid <= k1 <= 6 * grid && 5 * grid <= k2 <= 6 * grid);
    assert((m1 + k1) * (m1 + k1) <= (m1 + 6 * grid) * (m1 + 6 * grid)) by (nonlinear_arith)
        requires
            0 <= m1 + k1 <= m1 + 6 * grid,
    ;
    assert((m2 - k2) * (m2 - k2) >= (m2 - 6 * grid) * (m2 - 6 * grid)) by (nonlinear_arith)
        requires
            0 <= m2 - 6 * grid <= m2 - k2,
    ;
    assert((m1 + 6 * grid) * (m1 + 6 * grid) == (grid * grid) * a1) by (nonlinear_arith)
        requires
            m1 == grid * p,
            a1 == (p + 6) * (p + 6),
    ;
    assert((m2 - 6 * grid) * (m2 - 6 * grid) == (grid * grid) * a2) by (nonlinear_arith)
        requires
            m2 == grid * t,
            a2 == (t - 6) * (t - 6),
    ;
    assert(grid * grid * n1 <= (grid * grid) * a1);
    assert(grid * grid * n2 >= (grid * grid) * a2);
    assert(n1 <= a1 && n2 >= a2) by (nonlinear_arith)
        requires
            grid * grid * n1 <= (grid * grid) * a1,
            grid * grid * n2 >= (grid * grid) * a2,
            grid > 0,
    ;
    // The squared lengths after scaling.
    let (sx1, sy1) = (fx_mul(x1, zoom), fx_mul(y1, zoom));
    let (sx2, sy2) = (fx_mul(x2, zoom), fx_mul(y2, zoom));
    let (l1, l2) = (sx1 * sx1 + sy1 * sy1, sx2 * sx2 + sy2 * sy2);
    lemma_scaled_length(x1, y1, zoom, p);
    lemma_scaled_length(x2, y2, zoom, t);
    let zz = zoom * zoom;
    assert(zz * n1 <= zz * a1 && zz * n2 >= zz * a2) by (nonlinear_arith)
        requires
            zz == zoom * zoom,
            n1 <= a1,
            n2 >= a2,
    ;
    // The lower bound of the second exceeds the upper bound of the first.
    let w = 2 * p + 5000;
    assert(a2 - a1 == 4988 * w) by (nonlinear_arith)
        requires
            a1 == (p + 6) * (p + 6),
            a2 == (t - 6) * (t - 6),
            t == p + 5000,
            w == 2 * p + 5000,
    ;
    assert(zz * a2 - zz * a1 == 4988 * (zz * w)) by (nonlinear_arith)
        requires
            a2 - a1 == 4988 * w,
    ;
    let zw = zoom * w;
    assert(zz * w == zoom * zw) by (nonlinear_arith)
        requires
            zz == zoom * zoom,
            zw == zoom * w,
    ;
    assert((t * zoom) * one + (p * zoom) * one == one * zw) by (nonlinear_arith)
        requires
            zw == zoom * w,
            w == 2 * p + 5000,
            t == p + 5000,
    ;
    assert(zw >= 50_000_000_000) by (nonlinear_arith)
        requires
            zw == zoom * w,
            zoom >= 10_000_000,
            w >= 5000,
    ;
    assert(zoom * zw >= 10_000_000 * zw) by (nonlinear_arith)
        requires
            zoom >= 10_000_000,
            zw >= 0,
    ;
    assert((one * one) * l2 > (one * one) * l1);
    assert(l1 < l2);
    // In range, the points' coordinates are those lengths' coordinates.
    crate::fixed::lemma_fx_mul_bounded(x1, zoom, p);
    crate::fixed::lemma_fx_mul_bounded(y1, zoom, p);
    crate::fixed::lemma_fx_mul_bounded(x2, zoom, t);
    crate::fixed::lemma_fx_mul_bounded(y2, zoom, t);
    assert(spiral_point(i, here, zoom).x == sx1 && spiral_point(i, here, zoom).y == sy1);
    assert(spiral_point(i + 1, next, zoom).x == sx2 && spiral_point(i + 1, next, zoom).y == sy2);
}

/// At a zoom of at least `SHARP_ZOOM` every point of a spiral lies farther
/// from the origin than the one before it.
pub proof fn lemma_spiral_winds_outward(headings: Seq<Heading>, zoom: int)
    requires
        headings_wf(headings),
        SHARP_ZOOM <= zoom <= ONE,
    ensures
        winds_outward(spiral_points(headings, zoom)),
{
    let points = spiral_points(headings, zoom);
    assert forall|i: int| 0 <= i && i + 1 < points.len() implies length_sq(points[i]) < length_sq(
        #[trigger] points[i + 1],
    ) by {
        lemma_neighbours_differ(i, headings[i], headings[i + 1], zoom);
    }
}

/// At a zoom of at least `SHARP_ZOOM` a spiral has no segment of length
/// zero.
pub proof fn lemma_spiral_has_no_empty_segment(headings: Seq<Heading>, zoom: int)
    requires
        headings_wf(headings),
        SHARP_ZOOM <= zoom <= ONE,
    ensures
        neighbours_differ(spiral_points(headings, zoom)),
{
    let points = spiral_points(headings, zoom);
    assert forall|i: int| 0 <= i && i + 1 < points.len() implies points[i] != #[trigger] points[i
        + 1] by {
        lemma_neighbours_differ(i, headings[i], headings[i + 1], zoom);
    }
}

/// Every proper segment of the curve, from a point to the next, stays
/// farther than `r` from `c` along its whole length.
pub open spec fn segments_outside(points: Seq<Point>, c: Point, r: int) -> bool {
    forall|i: int, n: int, m: int|
        0 <= i && i + 1 < points.len() && 0 <= n <= m && 0 < m ==> #[trigger] gap_sq_scaled(
            points[i],
            points[i + 1],
            c,
            n,
            m,
        ) > r * r * (m * m)
}

/// A segment of the curve that at some point is within `r` of the centre,
/// be it exactly `r` away and strictly between its ends, is a collision
/// under segment intersection.
pub proof fn lemma_grazed_curve_collides(
    points: Seq<Point>,
    c: Point,
    r: int,
    i: int,
    n: int,
    m: int,
)
    requires
        r >= 0,
        0 <= i && i + 1 < points.len(),
        0 <= n <= m,
        0 < m,
        gap_sq_scaled(points[i], points[i + 1], c, n, m) <= r * r * (m * m),
    ensures
        curve_meets(points, c, r, CollisionPolicy::SegmentIntersection),
{
    assert(touches_at(points[i], points[i + 1], c, r, n, m));
    assert(segment_hit(points, c, r, i));
}

/// A curve of two points or more, all of whose segments stay farther than
/// `r` from the centre, collides under neither policy. (A curve of one point
/// has no segment; that point is tested as it is.)
pub proof fn lemma_outside_curve_misses(
    points: Seq<Point>,
    c: Point,
    r: int,
    policy: CollisionPolicy,
)
    requires
        points.len() != 1,
        segments_outside(points, c, r),
    ensures
        !curve_meets(points, c, r, policy),
{
    let len = points.len() as int;
    assert forall|i: int| !#[trigger] segment_hit(points, c, r, i) by {
        if 0 <= i < len && r >= 0 {
            if i + 1 < len {
                assert forall|n: int, m: int| !#[trigger] touches_at(
                    points[i],
                    points[i + 1],
                    c,
                    r,
                    n,
                    m,
                ) by {
                    if 0 <= n <= m && 0 < m {
                        assert(gap_sq_scaled(points[i], points[i + 1], c, n, m) > r * r * (m * m));
                    }
                }
            } else {
                // The last point is the far end of the last segment.
                let j = i - 1;
                let last = points[j + 1];
                assert(gap_sq_scaled(points[j], points[j + 1], c, 1, 1) > r * r * (1 * 1));
                assert(gap_sq_scaled(points[j], last, c, 1, 1) == dist_sq(last, c));
                assert(r * r * (1 * 1) == r * r) by (nonlinear_arith);
                assert(dist_sq(last, c) > r * r);
                assert forall|n: int, m: int| !#[trigger] touches_at(last, last, c, r, n, m) by {
                    if 0 <= n <= m && 0 < m {
                        lemma_degenerate_gap(last, c, r, n, m);
                    }
                }
            }
        }
    }
    if curve_meets_sampled(points, c, r) {
        lemma_segments_subsume_samples(points, c, r);
    }
}

/// Along a segment of length zero the gap is that of its point, whatever
/// the parameter.
proof fn lemma_degenerate_gap(p: Point, c: Point, r: int, n: int, m: int)
    requires
        0 < m,
        dist_sq(p, c) > r * r,
    ensures
        gap_sq_scaled(p, p, c, n, m) > r * r * (m * m),
{
    let (fx, fy) = (p.x - c.x, p.y - c.y);
    let mm = m * m;
    assert((m * fx + n * 0) * (m * fx + n * 0) == (fx * fx) * mm) by (nonlinear_arith)
        requires
            mm == m * m,
    ;
    assert((m * fy + n * 0) * (m * fy + n * 0) == (fy * fy) * mm) by (nonlinear_arith)
        requires
            mm == m * m,
    ;
    assert((fx * fx) * mm + (fy * fy) * mm > (r * r) * mm) by (nonlinear_arith)
        requires
            fx * fx + fy * fy > r * r,
            mm == m * m,
            0 < m,
    ;
}

} // verus!

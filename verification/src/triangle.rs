//! Boundary-inclusive point-in-triangle test for counter-clockwise triangles.

use vstd::prelude::*;

use crate::geometry::lemma_mul_comm2;
use crate::geometry::orient;
use crate::geometry::point_ok;
use crate::geometry::Point;
use crate::geometry::Vector;

verus! {

/// `q` lies on or to the left of the directed line `p0 -> p1`.
pub open spec fn on_or_left(p0: Point, p1: Point, q: Point) -> bool {
    orient(p0, p1, q) >= 0
}

/// Boundary-inclusive membership of `q` in the triangle `p0 p1 p2`,
/// assuming the triangle is listed in counter-clockwise order: `q` is
/// contained iff it is on or to the left of all three directed edges.
pub open spec fn spec_triangle_contains(p0: Point, p1: Point, p2: Point, q: Point) -> bool {
    on_or_left(p0, p1, q) && on_or_left(p1, p2, q) && on_or_left(p2, p0, q)
}

/// Half-plane test: whether `q` lies on or to the left of the directed
/// edge `p0 -> p1`, decided exactly from the sign of a cross product.
pub fn is_in_left(p0: &Point, p1: &Point, q: &Point) -> (r: bool)
    requires
        point_ok(*p0),
        point_ok(*p1),
        point_ok(*q),
    ensures
        r == on_or_left(*p0, *p1, *q),
{
    let v = Vector::points_minus(p1, p0);
    let w = Vector::points_minus(q, p0);
    let x = w.cross(&v);
    proof {
        lemma_mul_comm2(w.y as int, v.x as int, w.x as int, v.y as int);
        assert(x == orient(*p0, *p1, *q));
    }
    x >= 0
}

/// Boundary-inclusive containment of `point` in the triangle `p0 p1 p2`,
/// which must be listed in counter-clockwise order.
pub fn triangle_contains_point(p0: &Point, p1: &Point, p2: &Point, point: &Point) -> (r: bool)
    requires
        point_ok(*p0),
        point_ok(*p1),
        point_ok(*p2),
        point_ok(*point),
    ensures
        r == spec_triangle_contains(*p0, *p1, *p2, *point),
{
    is_in_left(p0, p1, point) && is_in_left(p1, p2, point) && is_in_left(p2, p0, point)
}

/// `(b - a) . (q - a)`: the projection of `q - a` along the edge `a -> b`.
pub open spec fn along_edge(a: Point, b: Point, q: Point) -> int {
    (b.x - a.x) * (q.x - a.x) + (b.y - a.y) * (q.y - a.y)
}

/// `q` lies exactly on the closed segment from `a` to `b`, endpoints
/// included: collinear with it and projecting between its endpoints.
/// Meaningful only when `a != b`.
pub open spec fn on_segment(q: Point, a: Point, b: Point) -> bool {
    orient(a, b, q) == 0 && 0 <= along_edge(a, b, q) <= along_edge(a, b, b)
}

/// Lying on a segment does not depend on the direction in which the
/// segment is traversed.
pub proof fn lemma_on_segment_symmetric(q: Point, a: Point, b: Point)
    ensures
        on_segment(q, a, b) == on_segment(q, b, a),
{
    assert((a.x - b.x) * (q.y - b.y) - (a.y - b.y) * (q.x - b.x) == -((b.x - a.x) * (q.y - a.y) - (
    b.y - a.y) * (q.x - a.x))) by (nonlinear_arith);
    assert((a.x - b.x) * (q.x - b.x) + (a.y - b.y) * (q.y - b.y) == ((b.x - a.x) * (b.x - a.x) + (
    b.y - a.y) * (b.y - a.y)) - ((b.x - a.x) * (q.x - a.x) + (b.y - a.y) * (q.y - a.y)))
        by (nonlinear_arith);
    assert((a.x - b.x) * (a.x - b.x) + (a.y - b.y) * (a.y - b.y) == (b.x - a.x) * (b.x - a.x) + (
    b.y - a.y) * (b.y - a.y)) by (nonlinear_arith);
}

/// A vector `w` collinear with `u` is, scaled by `|u|^2`, the multiple of
/// `u` given by their inner product.
proof fn lemma_collinear_multiple(ux: int, uy: int, wx: int, wy: int) by (nonlinear_arith)
    requires
        ux * wy - uy * wx == 0,
    ensures
        (ux * ux + uy * uy) * wx == (ux * wx + uy * wy) * ux,
        (ux * ux + uy * uy) * wy == (ux * wx + uy * wy) * uy,
{
}

/// Multiplying an affine decomposition through by a common factor.
proof fn lemma_scale_affine(n: int, t: int, d0: int, e1: int, w1: int, e2: int, w2: int)
    by (nonlinear_arith)
    requires
        t == d0 + e1 * w1 - e2 * w2,
    ensures
        n * t == n * d0 + e1 * (n * w1) - e2 * (n * w2),
{
}

/// Boundary inclusivity of the triangle test: a point exactly on the edge
/// `a -> b` of a counter-clockwise (or degenerate) triangle `a b c`,
/// endpoints included, is classified as contained. The other two edges
/// follow by rotating the arguments, which permutes the same three
/// half-plane conditions.
pub proof fn lemma_triangle_boundary_inclusive(a: Point, b: Point, c: Point, q: Point)
    requires
        orient(a, b, c) >= 0,
        a != b,
        on_segment(q, a, b),
    ensures
        spec_triangle_contains(a, b, c, q),
{
    let ux = b.x - a.x;
    let uy = b.y - a.y;
    let wx = q.x - a.x;
    let wy = q.y - a.y;
    let nn = along_edge(a, b, b);
    let ss = along_edge(a, b, q);
    let dd = orient(a, b, c);
    let xx = orient(b, c, q);
    let yy = orient(c, a, q);
    assert(nn > 0) by (nonlinear_arith)
        requires
            nn == ux * ux + uy * uy,
            ux != 0 || uy != 0,
    ;
    // On the segment, `w` is the multiple `ss / nn` of `u`.
    lemma_collinear_multiple(ux, uy, wx, wy);
    assert(nn * wx == ss * ux && nn * wy == ss * uy);
    // The half-plane values against the two other edges, as affine
    // functions of `w`.
    let dd0 = (c.x - b.x) * (a.y - b.y) - (c.y - b.y) * (a.x - b.x);
    assert(xx == dd0 + (c.x - b.x) * wy - (c.y - b.y) * wx) by (nonlinear_arith)
        requires
            xx == (c.x - b.x) * (q.y - b.y) - (c.y - b.y) * (q.x - b.x),
            dd0 == (c.x - b.x) * (a.y - b.y) - (c.y - b.y) * (a.x - b.x),
            wx == q.x - a.x,
            wy == q.y - a.y,
    ;
    assert(yy == (a.x - c.x) * wy - (a.y - c.y) * wx) by (nonlinear_arith)
        requires
            yy == (a.x - c.x) * (q.y - c.y) - (a.y - c.y) * (q.x - c.x),
            wx == q.x - a.x,
            wy == q.y - a.y,
    ;
    assert(dd0 == dd) by (nonlinear_arith)
        requires
            dd0 == (c.x - b.x) * (a.y - b.y) - (c.y - b.y) * (a.x - b.x),
            dd == (b.x - a.x) * (c.y - a.y) - (b.y - a.y) * (c.x - a.x),
    ;
    // Scale both decompositions by `nn` and replace `nn * w` by `ss * u`.
    lemma_scale_affine(nn, xx, dd0, c.x - b.x, wy, c.y - b.y, wx);
    lemma_scale_affine(nn, yy, 0, a.x - c.x, wy, a.y - c.y, wx);
    assert((c.x - b.x) * (ss * uy) - (c.y - b.y) * (ss * ux) == 0 - ss * dd) by (nonlinear_arith)
        requires
            dd == ux * (c.y - a.y) - uy * (c.x - a.x),
            ux == b.x - a.x,
            uy == b.y - a.y,
    ;
    assert((a.x - c.x) * (ss * uy) - (a.y - c.y) * (ss * ux) == ss * dd) by (nonlinear_arith)
        requires
            dd == ux * (c.y - a.y) - uy * (c.x - a.x),
            ux == b.x - a.x,
            uy == b.y - a.y,
    ;
    assert(nn * dd - ss * dd == (nn - ss) * dd) by (nonlinear_arith);
    assert(nn * xx == (nn - ss) * dd);
    assert(nn * yy == ss * dd);
    assert(xx >= 0) by (nonlinear_arith)
        requires
            nn > 0,
            nn - ss >= 0,
            dd >= 0,
            nn * xx == (nn - ss) * dd,
    ;
    assert(yy >= 0) by (nonlinear_arith)
        requires
            nn > 0,
            ss >= 0,
            dd >= 0,
            nn * yy == ss * dd,
    ;
}

} // verus!

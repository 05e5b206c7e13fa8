//! Polygon containment by iterative ear reduction.
//!
//! The driver first normalizes the winding of the polygon to
//! counter-clockwise using its signed area. It then scans for the first
//! triple of consecutive vertices that does not turn clockwise: an exactly
//! collinear triple loses its middle vertex outright (a zero-area ear
//! contributes nothing to the shape), while a convex corner is tested as a
//! triangle — answering "contained" at once on success, and otherwise also
//! losing its middle vertex. When three vertices remain they are tested
//! directly. A malformed polygon on which no such triple is ever found
//! makes the reduction stick, which the query reports rather than guessing.

use vstd::prelude::*;

use crate::geometry::lemma_orient_cycle;
use crate::geometry::lemma_orient_degenerate;
use crate::geometry::lemma_orient_reversal;
use crate::geometry::orient;
use crate::geometry::orientation_of;
use crate::geometry::point_ok;
use crate::geometry::Point;
use crate::orientation::lemma_area2_triangle;
use crate::orientation::lemma_signed_area_reverse;
use crate::orientation::next_index;
use crate::orientation::points_ok;
use crate::orientation::reversed;
use crate::orientation::signed_area_2;
use crate::orientation::signed_area_doubled;
use crate::triangle::lemma_on_segment_symmetric;
use crate::triangle::lemma_triangle_boundary_inclusive;
use crate::triangle::on_segment;
use crate::triangle::spec_triangle_contains;
use crate::triangle::triangle_contains_point;

verus! {

/// The turn made at the middle vertex of the triple of consecutive
/// vertices starting at `j`: positive for a counter-clockwise (convex, in a
/// counter-clockwise polygon) corner, zero for a collinear one.
pub open spec fn turn_at(s: Seq<Point>, j: int) -> int {
    let n = s.len() as int;
    orient(s[j], s[next_index(n, j)], s[next_index(n, next_index(n, j))])
}

/// One reduction pass, resumed at scan position `j`: skip clockwise turns;
/// at the first other triple, either answer or drop the middle vertex and
/// rescan; with three vertices left, test them directly. `None` means the
/// scan ran off the end without finding a usable triple, which cannot
/// happen on a counter-clockwise simple polygon.
pub open spec fn reduce_from(s: Seq<Point>, j: int, q: Point) -> Option<bool>
    decreases s.len(), s.len() - j,
{
    let n = s.len() as int;
    if n < 3 || j < 0 {
        None
    } else if n == 3 {
        Some(spec_triangle_contains(s[0], s[1], s[2], q))
    } else if j >= n {
        None
    } else if turn_at(s, j) < 0 {
        reduce_from(s, j + 1, q)
    } else {
        let mid = next_index(n, j);
        if turn_at(s, j) == 0 {
            reduce_from(s.remove(mid), 0, q)
        } else if spec_triangle_contains(s[j], s[mid], s[next_index(n, mid)], q) {
            Some(true)
        } else {
            reduce_from(s.remove(mid), 0, q)
        }
    }
}

/// The reduction, started on a counter-clockwise vertex sequence.
pub open spec fn reduce_contains(s: Seq<Point>, q: Point) -> Option<bool> {
    reduce_from(s, 0, q)
}

/// The vertex sequence with its winding normalized to counter-clockwise:
/// kept as given when its signed area is positive, reversed otherwise.
pub open spec fn ccw_normalized(s: Seq<Point>) -> Seq<Point> {
    if signed_area_2(s) > 0 {
        s
    } else {
        s.reverse()
    }
}

/// Boundary-inclusive containment of `q` in the polygon `s`, in either
/// winding direction: what the whole query computes. `None` on malformed
/// (non-simple) input whose reduction gets stuck.
pub open spec fn spec_polygon_contains(s: Seq<Point>, q: Point) -> Option<bool> {
    reduce_contains(ccw_normalized(s), q)
}

/// Skipping clockwise turns does not change the outcome of the pass.
proof fn lemma_reduce_scan_skip(s: Seq<Point>, i: int, j: int, q: Point)
    requires
        s.len() > 3,
        0 <= i <= j <= s.len(),
        forall|k: int| i <= k < j ==> turn_at(s, k) < 0,
    ensures
        reduce_from(s, i, q) == reduce_from(s, j, q),
    decreases j - i,
{
    if i < j {
        assert(turn_at(s, i) < 0);
        lemma_reduce_scan_skip(s, i + 1, j, q);
    }
}

/// The scan of the reduction: the index of the first triple of consecutive
/// vertices that does not turn clockwise, or the vertex count when every
/// triple turns clockwise.
fn find_candidate(ps: &Vec<Point>) -> (j: usize)
    requires
        ps@.len() >= 3,
        points_ok(ps@),
    ensures
        j <= ps@.len(),
        forall|k: int| 0 <= k < j ==> turn_at(ps@, k) < 0,
        j < ps@.len() ==> turn_at(ps@, j as int) >= 0,
{
    let n = ps.len();
    let mut j: usize = 0;
    while j < n
        invariant
            n == ps@.len(),
            n >= 3,
            points_ok(ps@),
            j <= n,
            forall|k: int| 0 <= k < j ==> turn_at(ps@, k) < 0,
        decreases n - j,
    {
        let t = turn_of(ps, j);
        if t >= 0 {
            return j;
        }
        j = j + 1;
    }
    n
}

/// The turn at the middle vertex of the triple starting at `j`, computed
/// exactly.
fn turn_of(ps: &Vec<Point>, j: usize) -> (t: i64)
    requires
        ps@.len() >= 3,
        j < ps@.len(),
        points_ok(ps@),
    ensures
        t == turn_at(ps@, j as int),
{
    let n = ps.len();
    let j1 = if j + 1 < n {
        j + 1
    } else {
        0
    };
    let j2 = if j1 + 1 < n {
        j1 + 1
    } else {
        0
    };
    orientation_of(&ps[j], &ps[j1], &ps[j2])
}

/// Boundary-inclusive containment of `point` in the polygon `polygon`,
/// given in either winding direction: `Some(true)` iff the point lies
/// inside or exactly on the boundary, and `None` when the input is
/// malformed (not a simple polygon) and the reduction gets stuck.
#[verifier::loop_isolation(false)]
pub fn try_polygon_contains_point(polygon: Vec<Point>, point: &Point) -> (r: Option<bool>)
    requires
        polygon@.len() >= 3,
        points_ok(polygon@),
        point_ok(*point),
    ensures
        r == spec_polygon_contains(polygon@, *point),
{
    let ghost orig: Seq<Point> = polygon@;
    let area2 = signed_area_doubled(&polygon);
    let mut ps: Vec<Point> = if area2 > 0 {
        polygon
    } else {
        reversed(polygon)
    };
    proof {
        assert(ps@ == ccw_normalized(orig));
        assert forall|i: int| 0 <= i < ps@.len() implies point_ok(#[trigger] ps@[i]) by {
            if signed_area_2(orig) <= 0 {
                assert(ps@[i] == orig[orig.len() - 1 - i]);
            }
        }
    }
    while ps.len() > 3
        invariant
            ps@.len() >= 3,
            points_ok(ps@),
            point_ok(*point),
            reduce_contains(ps@, *point) == spec_polygon_contains(orig, *point),
        decreases ps@.len(),
    {
        let n = ps.len();
        let j = find_candidate(&ps);
        proof {
            lemma_reduce_scan_skip(ps@, 0, j as int, *point);
        }
        if j == n {
            return None;
        }
        let t = turn_of(&ps, j);
        let mid = if j + 1 < n {
            j + 1
        } else {
            0
        };
        if t > 0 {
            let third = if mid + 1 < n {
                mid + 1
            } else {
                0
            };
            if triangle_contains_point(&ps[j], &ps[mid], &ps[third], point) {
                return Some(true);
            }
        }
        let ghost before = ps@;
        ps.remove(mid);
        proof {
            assert forall|k: int| 0 <= k < ps@.len() implies point_ok(#[trigger] ps@[k]) by {
                if k < mid {
                    assert(ps@[k] == before[k]);
                } else {
                    assert(ps@[k] == before[k + 1]);
                }
            }
        }
    }
    let r = triangle_contains_point(&ps[0], &ps[1], &ps[2], point);
    Some(r)
}

/// Boundary-inclusive containment of `point` in the polygon `polygon`, for
/// inputs on which the reduction is known not to get stuck (in particular,
/// simple polygons).
pub fn polygon_contains_point(polygon: Vec<Point>, point: &Point) -> (r: bool)
    requires
        polygon@.len() >= 3,
        points_ok(polygon@),
        point_ok(*point),
        spec_polygon_contains(polygon@, *point) is Some,
    ensures
        Some(r) == spec_polygon_contains(polygon@, *point),
{
    match try_polygon_contains_point(polygon, point) {
        Some(b) => b,
        None => {
            proof {
                assert(false);
            }
            false
        },
    }
}

/// Winding independence: containment does not depend on the direction in
/// which the polygon's vertices are listed. Holds for every polygon of
/// nonzero signed area — every simple polygon has nonzero area — and for
/// every query point.
pub proof fn lemma_winding_independence(s: Seq<Point>, q: Point)
    requires
        signed_area_2(s) != 0,
    ensures
        spec_polygon_contains(s, q) == spec_polygon_contains(s.reverse(), q),
{
    lemma_signed_area_reverse(s);
    if signed_area_2(s) > 0 {
        assert(s.reverse().reverse() =~= s);
    }
}

/// Boundary inclusivity at the polygon level, for the smallest polygons: a
/// point exactly on edge `i` of a three-vertex polygon of nonzero area,
/// endpoints included, is contained, whichever way the polygon winds. On
/// larger polygons the reduction decides through intermediate ears, so the
/// inclusivity of each tested ear is what
/// [`lemma_triangle_boundary_inclusive`] states.
pub proof fn lemma_triangle_polygon_boundary_inclusive(s: Seq<Point>, q: Point, i: int)
    requires
        s.len() == 3,
        signed_area_2(s) != 0,
        0 <= i < 3,
        on_segment(q, s[i], s[next_index(3, i)]),
    ensures
        spec_polygon_contains(s, q) == Some(true),
{
    let a = s[0];
    let b = s[1];
    let c = s[2];
    lemma_area2_triangle(s);
    lemma_orient_degenerate(a, b, c);
    lemma_orient_cycle(a, b, c);
    lemma_orient_cycle(b, c, a);
    if signed_area_2(s) > 0 {
        assert(spec_polygon_contains(s, q) == Some(spec_triangle_contains(a, b, c, q)));
        if i == 0 {
            lemma_triangle_boundary_inclusive(a, b, c, q);
        } else if i == 1 {
            lemma_triangle_boundary_inclusive(b, c, a, q);
        } else {
            lemma_triangle_boundary_inclusive(c, a, b, q);
        }
    } else {
        let r = s.reverse();
        assert(r.len() == 3 && r[0] == c && r[1] == b && r[2] == a);
        assert(spec_polygon_contains(s, q) == Some(spec_triangle_contains(c, b, a, q)));
        lemma_orient_reversal(a, b, c);
        lemma_orient_cycle(c, b, a);
        lemma_orient_cycle(b, a, c);
        if i == 0 {
            lemma_on_segment_symmetric(q, a, b);
            lemma_triangle_boundary_inclusive(b, a, c, q);
        } else if i == 1 {
            lemma_on_segment_symmetric(q, b, c);
            lemma_triangle_boundary_inclusive(c, b, a, q);
        } else {
            lemma_on_segment_symmetric(q, c, a);
            lemma_triangle_boundary_inclusive(a, c, b, q);
        }
    }
}

/// The number of vertex removals a reduction pass resumed at `j` performs
/// before it answers.
pub open spec fn removal_count_from(s: Seq<Point>, j: int, q: Point) -> nat
    decreases s.len(), s.len() - j,
{
    let n = s.len() as int;
    if n < 3 || j < 0 {
        0
    } else if n == 3 {
        0
    } else if j >= n {
        0
    } else if turn_at(s, j) < 0 {
        removal_count_from(s, j + 1, q)
    } else {
        let mid = next_index(n, j);
        if turn_at(s, j) == 0 {
            1 + removal_count_from(s.remove(mid), 0, q)
        } else if spec_triangle_contains(s[j], s[mid], s[next_index(n, mid)], q) {
            0
        } else {
            1 + removal_count_from(s.remove(mid), 0, q)
        }
    }
}

/// The number of vertex removals the reduction performs on `s` before it
/// answers.
pub open spec fn removal_count(s: Seq<Point>, q: Point) -> nat {
    removal_count_from(s, 0, q)
}

proof fn lemma_removal_count_from_bound(s: Seq<Point>, j: int, q: Point)
    requires
        s.len() >= 3,
        0 <= j,
    ensures
        removal_count_from(s, j, q) <= s.len() - 3,
    decreases s.len(), s.len() - j,
{
    let n = s.len() as int;
    if n == 3 || j >= n {
    } else if turn_at(s, j) < 0 {
        lemma_removal_count_from_bound(s, j + 1, q);
    } else {
        let mid = next_index(n, j);
        if turn_at(s, j) == 0 || !spec_triangle_contains(s[j], s[mid], s[next_index(n, mid)], q) {
            lemma_removal_count_from_bound(s.remove(mid), 0, q);
        }
    }
}

/// Termination bound: on an `n`-vertex polygon the reduction removes at
/// most `n - 3` vertices — in particular at most `n - 2` — before it
/// answers, since every removal strictly shrinks the polygon and the
/// reduction stops at three vertices.
pub proof fn lemma_termination_bound(s: Seq<Point>, q: Point)
    requires
        s.len() >= 3,
    ensures
        removal_count(s, q) <= s.len() - 3,
        removal_count(s, q) <= s.len() - 2,
{
    lemma_removal_count_from_bound(s, 0, q);
}

} // verus!

//! Winding orientation of a closed vertex sequence, by exact signed area.
//!
//! The sign of the shoelace sum distinguishes a counter-clockwise vertex
//! order (positive) from a clockwise one (negative), playing the role a
//! total turning angle of `+2*pi` or `-2*pi` plays for smooth closed paths.

use vstd::prelude::*;

use crate::geometry::lemma_mul_bound;
use crate::geometry::point_ok;
use crate::geometry::Point;

verus! {

/// The index following `i` on a closed path of `n` vertices.
pub open spec fn next_index(n: int, i: int) -> int {
    if i + 1 < n {
        i + 1
    } else {
        0
    }
}

/// The shoelace term of the directed edge from `s[i]` to its successor.
pub open spec fn edge_term(s: Seq<Point>, i: int) -> int {
    let j = next_index(s.len() as int, i);
    s[i].x * s[j].y - s[j].x * s[i].y
}

/// Sum of the first `k` shoelace terms.
pub open spec fn area_sum(s: Seq<Point>, k: int) -> int
    decreases k,
{
    if k <= 0 {
        0
    } else {
        area_sum(s, k - 1) + edge_term(s, k - 1)
    }
}

/// Twice the signed area of the closed path through `s`, by the shoelace
/// formula: positive iff the vertices are in counter-clockwise order.
pub open spec fn signed_area_2(s: Seq<Point>) -> int {
    area_sum(s, s.len() as int)
}

/// Every point of the sequence has in-range coordinates.
pub open spec fn points_ok(s: Seq<Point>) -> bool {
    forall|i: int| 0 <= i < s.len() ==> point_ok(#[trigger] s[i])
}

/// Twice the signed area of the closed polygon `ps`, computed exactly.
///
/// Its sign determines the winding orientation of the vertex order, as the
/// sign of the total turning angle does for a simple closed path.
pub fn signed_area_doubled(ps: &Vec<Point>) -> (area2: i128)
    requires
        points_ok(ps@),
    ensures
        area2 == signed_area_2(ps@),
{
    let n = ps.len();
    let mut acc: i128 = 0;
    let mut i: usize = 0;
    while i < n
        invariant
            n == ps@.len(),
            points_ok(ps@),
            0 <= i <= n,
            acc == area_sum(ps@, i as int),
            -2_000_000_000_000_000_000 * (i as int) <= acc
                <= 2_000_000_000_000_000_000 * (i as int),
        decreases n - i,
    {
        let j = if i + 1 < n {
            i + 1
        } else {
            0
        };
        proof {
            lemma_mul_bound(ps@[i as int].x as int, ps@[j as int].y as int, 1_000_000_000);
            lemma_mul_bound(ps@[j as int].x as int, ps@[i as int].y as int, 1_000_000_000);
        }
        let t: i64 = ps[i].x * ps[j].y - ps[j].x * ps[i].y;
        acc = acc + t as i128;
        i = i + 1;
    }
    acc
}

/// Reverses the order of a vertex sequence.
pub fn reversed(ps: Vec<Point>) -> (r: Vec<Point>)
    ensures
        r@ == ps@.reverse(),
{
    let mut r: Vec<Point> = Vec::new();
    let mut i: usize = ps.len();
    while i > 0
        invariant
            i <= ps@.len(),
            r@.len() == ps@.len() - i,
            forall|k: int| 0 <= k < r@.len() ==> #[trigger] r@[k] == ps@[ps@.len() - 1 - k],
        decreases i,
    {
        i = i - 1;
        let p = ps[i];
        r.push(p);
    }
    proof {
        assert(r@ =~= ps@.reverse());
    }
    r
}

/// The partial shoelace sums of a reversed sequence are, term for term, the
/// negated shoelace terms of the original taken backwards: summing `k` of
/// them recovers the difference of two forward partial sums.
proof fn lemma_area_sum_reverse(s: Seq<Point>, k: int)
    requires
        1 <= s.len(),
        0 <= k <= s.len() - 1,
    ensures
        area_sum(s.reverse(), k) == area_sum(s, s.len() - 1 - k) - area_sum(s, s.len() - 1),
    decreases k,
{
    let n = s.len() as int;
    let r = s.reverse();
    if k > 0 {
        lemma_area_sum_reverse(s, k - 1);
        let i = k - 1;
        let m = n - 2 - i;
        assert(r[i] == s[m + 1]);
        assert(r[i + 1] == s[m]);
        assert(edge_term(r, i) == -edge_term(s, m));
        assert(area_sum(s, m + 1) == area_sum(s, m) + edge_term(s, m));
    }
}

/// On a three-vertex polygon the shoelace sum is exactly the orientation
/// of the triangle formed by its vertices.
pub proof fn lemma_area2_triangle(s: Seq<Point>)
    requires
        s.len() == 3,
    ensures
        signed_area_2(s) == crate::geometry::orient(s[0], s[1], s[2]),
{
    assert(signed_area_2(s) == edge_term(s, 0) + edge_term(s, 1) + edge_term(s, 2)) by {
        reveal_with_fuel(area_sum, 4);
    }
    let a = s[0];
    let b = s[1];
    let c = s[2];
    assert((a.x * b.y - b.x * a.y) + (b.x * c.y - c.x * b.y) + (c.x * a.y - a.x * c.y) == (b.x
        - a.x) * (c.y - a.y) - (b.y - a.y) * (c.x - a.x)) by (nonlinear_arith);
}

/// Reversing the vertex order negates the signed area: the same vertices
/// listed in the opposite winding direction give the opposite orientation
/// sign, with the same magnitude.
pub proof fn lemma_signed_area_reverse(s: Seq<Point>)
    ensures
        signed_area_2(s.reverse()) == -signed_area_2(s),
{
    if s.len() > 0 {
        let n = s.len() as int;
        let r = s.reverse();
        lemma_area_sum_reverse(s, n - 1);
        assert(r[n - 1] == s[0]);
        assert(r[0] == s[n - 1]);
        assert(edge_term(r, n - 1) == -edge_term(s, n - 1));
        assert(area_sum(r, n) == area_sum(r, n - 1) + edge_term(r, n - 1));
        assert(area_sum(s, n) == area_sum(s, n - 1) + edge_term(s, n - 1));
    }
}

} // verus!

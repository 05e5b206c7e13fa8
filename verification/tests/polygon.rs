use point_in_polygon::polygon_contains_point;
use point_in_polygon::signed_area_doubled;
use point_in_polygon::try_polygon_contains_point;
use point_in_polygon::Point;
use point_in_polygon::Vector;

// The coordinates mirror the classic unit-square examples on a fixed-point
// grid of one hundred steps per unit.

fn pts(cs: &[(i64, i64)]) -> Vec<Point> {
    let mut v: Vec<Point> = Vec::new();
    for c in cs {
        v.push(Point { x: c.0, y: c.1 });
    }
    v
}

fn check(cs: &[(i64, i64)], p: (i64, i64)) -> bool {
    polygon_contains_point(pts(cs), &Point { x: p.0, y: p.1 })
}

fn area(cs: &[(i64, i64)]) -> i128 {
    signed_area_doubled(&pts(cs))
}

#[test]
fn test_vector_points_minus() {
    assert_eq!(
        Vector::points_minus(&Point { x: 100, y: 0 }, &Point { x: 0, y: 100 }),
        Vector { x: 100, y: -100 }
    );
}

#[test]
fn test_vector_cross() {
    // a = (1, 0), b = (0, 1), scaled by one hundred: b x a = sin 90 = 1,
    // which is one full square of the grid.
    let a = Vector { x: 100, y: 0 };
    let b = Vector { x: 0, y: 100 };
    assert_eq!(b.cross(&a), 10000);
}

#[test]
fn test_integral_argz() {
    // Counter-clockwise orders: positive signed area, where the turning
    // angle of the closed path would be +2*pi.
    assert_eq!(area(&[(0, 0), (100, 0), (0, 100)]), 10000);
    assert_eq!(area(&[(0, 0), (100, 0), (0, 100), (-100, 200)]), 20000);
    assert_eq!(area(&[(0, 0), (100, 0), (0, 100), (-100, 100), (50, -300)]), 45000);
    // The same vertices listed clockwise: the same magnitudes, negated,
    // where the turning angle would be -2*pi.
    assert_eq!(area(&[(0, 0), (0, 100), (100, 0)]), -10000);
    assert_eq!(area(&[(0, 0), (-100, 200), (0, 100), (100, 0)]), -20000);
    assert_eq!(area(&[(0, 0), (50, -300), (-100, 100), (0, 100), (100, 0)]), -45000);
}

#[test]
fn test_triangle() {
    // Counter-clockwise triangle.
    assert!(check(&[(0, 0), (100, 0), (0, 100)], (0, 0)));
    assert!(!check(&[(0, 0), (100, 0), (0, 100)], (200, 0)));
    assert!(check(&[(0, 0), (100, 0), (0, 100)], (50, 49)));
    assert!(!check(&[(0, 0), (100, 0), (0, 100)], (50, 51)));
    assert!(check(&[(0, 0), (100, 0), (0, 100)], (1, 50)));
    assert!(!check(&[(0, 0), (100, 0), (0, 100)], (-1, 50)));
    // The same triangle listed clockwise.
    assert!(check(&[(0, 0), (0, 100), (100, 0)], (0, 0)));
    assert!(!check(&[(0, 0), (0, 100), (100, 0)], (200, 0)));
    assert!(check(&[(0, 0), (0, 100), (100, 0)], (50, 49)));
    assert!(!check(&[(0, 0), (0, 100), (100, 0)], (50, 51)));
    assert!(check(&[(0, 0), (0, 100), (100, 0)], (1, 50)));
    assert!(!check(&[(0, 0), (0, 100), (100, 0)], (-1, 50)));
}

#[test]
fn test_square() {
    // Counter-clockwise quadrilateral with a reflex corner.
    assert!(check(&[(0, 0), (100, 0), (0, 100), (-100, 200)], (0, 0)));
    assert!(!check(&[(0, 0), (100, 0), (0, 100), (-100, 200)], (200, 0)));
    assert!(check(&[(0, 0), (100, 0), (0, 100), (-100, 200)], (50, 49)));
    assert!(!check(&[(0, 0), (100, 0), (0, 100), (-100, 200)], (50, 51)));
    assert!(check(&[(0, 0), (100, 0), (0, 100), (-100, 200)], (1, 50)));
    assert!(check(&[(0, 0), (100, 0), (0, 100), (-100, 200)], (-1, 50)));
    assert!(!check(&[(0, 0), (100, 0), (0, 100), (-100, 200)], (-50, 151)));
    assert!(check(&[(0, 0), (100, 0), (0, 100), (-100, 200)], (-50, 149)));
    assert!(check(&[(0, 0), (100, 0), (0, 100), (-100, 200)], (-50, 101)));
    assert!(!check(&[(0, 0), (100, 0), (0, 100), (-100, 200)], (-50, 99)));
    // The same quadrilateral listed clockwise.
    assert!(check(&[(0, 0), (-100, 200), (0, 100), (100, 0)], (0, 0)));
    assert!(!check(&[(0, 0), (-100, 200), (0, 100), (100, 0)], (200, 0)));
    assert!(check(&[(0, 0), (-100, 200), (0, 100), (100, 0)], (50, 49)));
    assert!(!check(&[(0, 0), (-100, 200), (0, 100), (100, 0)], (50, 51)));
    assert!(check(&[(0, 0), (-100, 200), (0, 100), (100, 0)], (1, 50)));
    assert!(check(&[(0, 0), (-100, 200), (0, 100), (100, 0)], (-1, 50)));
    assert!(!check(&[(0, 0), (-100, 200), (0, 100), (100, 0)], (-50, 151)));
    assert!(check(&[(0, 0), (-100, 200), (0, 100), (100, 0)], (-50, 149)));
    assert!(check(&[(0, 0), (-100, 200), (0, 100), (100, 0)], (-50, 101)));
    assert!(!check(&[(0, 0), (-100, 200), (0, 100), (100, 0)], (-50, 99)));
}

#[test]
fn test_is_in_left() {
    // Strictly left of, exactly on, and strictly right of a directed edge.
    let p0 = Point { x: 0, y: 0 };
    let p1 = Point { x: 100, y: 0 };
    assert!(point_in_polygon::triangle::is_in_left(&p0, &p1, &Point { x: 50, y: 1 }));
    assert!(point_in_polygon::triangle::is_in_left(&p0, &p1, &Point { x: 50, y: 0 }));
    assert!(!point_in_polygon::triangle::is_in_left(&p0, &p1, &Point { x: 50, y: -1 }));
}

#[test]
fn test_vector_dot() {
    let a = Vector { x: 2, y: 3 };
    let b = Vector { x: 4, y: 5 };
    assert_eq!(a.dot(&b), 23);
}

#[test]
fn test_degenerate_area_is_zero() {
    // A flat "polygon" of collinear vertices encloses no area.
    assert_eq!(area(&[(0, 0), (100, 0), (200, 0)]), 0);
}

#[test]
fn test_coordinate_limit() {
    // The full coordinate range is handled exactly: a triangle spanning
    // the accepted grid, with the query on its hypotenuse and just beyond.
    let big: i64 = 1_000_000_000;
    let tri = [(-big, -big), (big, -big), (-big, big)];
    assert_eq!(area(&tri), 4_000_000_000_000_000_000);
    assert!(check(&tri, (0, 0)));
    assert!(!check(&tri, (1, 1)));
}

#[test]
fn test_orientation_reversal_negates() {
    // Reversing the vertex order flips the orientation sign and keeps the
    // magnitude, for convex and reflex polygons alike.
    assert_eq!(area(&[(0, 0), (100, 0), (0, 100)]), 10000);
    assert_eq!(area(&[(0, 100), (100, 0), (0, 0)]), -10000);
    assert_eq!(area(&[(0, 0), (100, 0), (0, 100), (-100, 200)]), 20000);
    assert_eq!(area(&[(-100, 200), (0, 100), (100, 0), (0, 0)]), -20000);
}

#[test]
fn test_winding_independence() {
    // Containment does not depend on the direction in which the vertices
    // are listed.
    let quad = [(0, 0), (100, 0), (0, 100), (-100, 200)];
    let quad_rev = [(-100, 200), (0, 100), (100, 0), (0, 0)];
    let queries = [(1, 50), (-50, 149), (-50, 151), (200, 0), (0, 0)];
    for q in queries {
        assert_eq!(check(&quad, q), check(&quad_rev, q));
    }
    assert!(check(&quad, (1, 50)));
    assert!(!check(&quad, (200, 0)));
}

#[test]
fn test_boundary_points_contained() {
    // Edge endpoints and points exactly on an edge count as contained, in
    // both winding directions.
    let tri = [(0, 0), (100, 0), (0, 100)];
    let tri_cw = [(0, 0), (0, 100), (100, 0)];
    for q in [(0, 0), (100, 0), (0, 100), (50, 50), (0, 50), (50, 0)] {
        assert!(check(&tri, q));
        assert!(check(&tri_cw, q));
    }
    let quad = [(0, 0), (100, 0), (0, 100), (-100, 200)];
    for q in [(50, 50), (-50, 150), (-100, 200), (0, 0), (50, 0)] {
        assert!(check(&quad, q));
    }
}

#[test]
fn test_collinear_vertex_removed() {
    // A polygon with an exactly collinear vertex behaves as the triangle
    // it outlines: the zero-area ear is dropped without a containment test.
    let coll = [(0, 0), (50, 0), (100, 0), (0, 100)];
    assert!(check(&coll, (50, 49)));
    assert!(!check(&coll, (50, 51)));
    assert!(check(&coll, (50, 0)));
    assert!(check(&coll, (0, 0)));
    assert!(check(&coll, (1, 50)));
}

#[test]
fn test_determinism() {
    // Repeated queries with identical inputs give identical results.
    let quad = [(0, 0), (100, 0), (0, 100), (-100, 200)];
    for q in [(1, 50), (-50, 149), (-50, 151), (50, 50)] {
        let first = check(&quad, q);
        let second = check(&quad, q);
        assert_eq!(first, second);
    }
}

#[test]
fn test_degenerate_reduction_reported() {
    // A self-intersecting polygon on which the reduction finds no usable
    // ear is reported as unsupported rather than answered arbitrarily.
    let bad = pts(&[(500, -400), (-200, 500), (200, -100), (300, -100), (200, 200)]);
    assert_eq!(try_polygon_contains_point(bad, &Point { x: 0, y: 0 }), None);
    // Ordinary polygons are decided.
    let tri = pts(&[(0, 0), (100, 0), (0, 100)]);
    assert_eq!(try_polygon_contains_point(tri, &Point { x: 50, y: 49 }), Some(true));
    let tri2 = pts(&[(0, 0), (100, 0), (0, 100)]);
    assert_eq!(try_polygon_contains_point(tri2, &Point { x: 50, y: 51 }), Some(false));
}

//! Boundary-inclusive point-in-polygon tests over exact integer coordinates.
//!
//! A polygon is an ordered sequence of at least three vertices, implicitly
//! closed, given in either winding direction. The containment query first
//! normalizes the winding to counter-clockwise using the polygon's signed
//! area, then repeatedly clips ear triangles off the polygon, answering as
//! soon as one of them contains the query point. All arithmetic is exact,
//! so a point exactly on an edge is always classified as contained.
//!
//! A deliberate difference from turning-angle formulations: configurations
//! that are exactly collinear — including a path that doubles straight back
//! on itself, where an accumulated turning angle has no usable value — are
//! not aborted on. They fall under the exact zero-area rules: a collinear
//! ear is dropped, and a reduction that can make no progress at all is
//! reported as unsupported instead of answered arbitrarily.

pub mod containment;
pub mod geometry;
pub mod orientation;
pub mod triangle;

pub use containment::polygon_contains_point;
pub use containment::try_polygon_contains_point;
pub use geometry::MAX_COORD;
pub use geometry::Point;
pub use geometry::Vector;
pub use orientation::signed_area_doubled;
pub use triangle::triangle_contains_point;

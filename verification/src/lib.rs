//! A small boundary-representation / CSG kernel over an integer lattice.
//!
//! Shapes are described by primitives (circles) and combinators (difference);
//! their boundaries are discretized at a caller-chosen tolerance into ordered
//! vertex sequences, a triangulation of those vertices is filtered into a
//! surface approximating the combined shape, and the resulting triangle soup
//! is folded into a deduplicated indexed mesh.
//!
//! All coordinates, radii and tolerances are plain integers in one common
//! unit; a caller that works in real-valued coordinates picks the unit (for
//! example one unit = 1/65536 of a model unit) and converts at the boundary.
//! The Delaunay triangulation step itself is an external collaborator: the
//! kernel produces the point sets to triangulate and consumes the returned
//! triangles, but does not compute the triangulation.

pub mod num;
pub mod math;
pub mod triangle;
pub mod edges;
pub mod mesh;
pub mod shapes;
pub mod vertices;
pub mod zoom;

//! Procedural mesh building blocks: triangles, quads, a tagged polygon type,
//! vertex emission and per-vertex mapping, iterator adapters over lazy polygon
//! sequences, and a UV-sphere generator with a deduplicated indexed form.
//!
//! Vertex payloads are opaque to this crate. The sphere generator works on
//! integer grid coordinates; turning a grid point into a position in space is
//! left to the consumer.

pub mod poly;
pub mod sphere;

pub use poly::{
    EmitVertices, MapToVertices, MapToVerticesIter, MapVertex, Polygon, PolygonSource, Quad,
    Triangle, Vertices, VerticesIterator,
};
pub use sphere::SphereUV;

//! Geometry clipmap terrain meshes: the fixed catalog of patch, trim, cross
//! and seam meshes that concentric level-of-detail rings are assembled from,
//! with one longest-edge refinement pass for the finer variants.
//!
//! Positions are fixed-point integers (see [`geometry::UNITS_PER_CELL`]), so
//! every midpoint and every weld key is exact.

pub mod geometry;
pub mod weld;
pub mod subdivide;
pub mod clipmap;
pub mod shapes;
pub mod winding;
pub mod laws;

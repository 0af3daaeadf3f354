//! Planar geometries as typed values: coordinates and tables, points,
//! lines, line strings, multi geometries and polygons behind handles, and
//! the division of a line string into a prefix or into consecutive pieces.
//!
//! The library moves coordinates and compares lengths; it never computes
//! with them. The scalar type of a coordinate is therefore left to the
//! caller, and lengths come in as integers that order as the lengths do.

pub mod construct;
pub mod coords;
pub mod error;
pub mod geometry;
pub mod query;
pub mod segment;
pub mod segment_laws;

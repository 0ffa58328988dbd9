//! Conversion between simple-feature geometry, as nested tagged arrays, and a
//! typed geometry model, with the classification of geometry vectors.
//!
//! A simple-feature geometry is a [`Node`]: a two-column numeric matrix in
//! column-major order, a list of nodes, or null, with the class stack that
//! names its kind. [`sfg_to_geom`] reads such a node into a [`Geom`], and
//! [`to_sfg`] writes a [`Geom`] back; `laws` states how the two fit together.
//! A vector of geometry handles gets its class from the kinds of its handles.
//!
//! The scalar type of a coordinate is a type parameter: no function here
//! computes with a coordinate, each only moves it from one place to another.
pub mod constructors;
pub mod error;
pub mod fromsf;
pub mod geometry;
pub mod handle;
pub mod laws;
pub mod node;
pub mod tags;
pub mod text;
pub mod tosf;
pub mod vctrs;

pub use crate::constructors::{
    geom_linestring, geom_multilinestring, geom_multipoint, geom_multipolygon, geom_point,
    geom_polygon, matrix_to_coords, matrix_to_points, to_index,
};
pub use crate::error::{ElementError, Error, NodeKind, ShapeError};
pub use crate::fromsf::{
    sfc_to_geometry, sfc_to_geoms, sfc_to_geoms_counted, sfc_to_rsgeo, sfg_to_geom, sfg_to_rsgeo,
};
pub use crate::geometry::{
    Coord, Geom, Geometry, LineString, MultiLineString, MultiPoint, MultiPolygon, OtherKind, Point,
    Polygon,
};
pub use crate::handle::{GeomVector, Handle};
pub use crate::node::{ListNode, MatrixNode, Node};
pub use crate::tags::Kind;
pub use crate::tosf::{
    determine_sfc_class, from_linestring, from_multilinestring, from_multipoint,
    from_multipolygon, from_point, from_polygon, geoms_to_sfc, to_sfg,
};
pub use crate::vctrs::{
    as_rsgeo_vctr, classify, determine_geoms_class, geom_class, is_rsgeo, rsgeo_type, vctrs_class,
    vector_tag, verify_rsgeo,
};

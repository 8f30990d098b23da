//! The core of a viewer for geographic vector data: viewport and tile
//! addressing, a bounded least-recently-used tile cache, and the dispatch
//! of vector geometries to the primitive calls of a 2D canvas.
//!
//! # Numbers
//!
//! Every real quantity (degrees, pixels, zoom levels, radii, opacities) is
//! an `i64` that counts units of 2^-27, see [`fixed`]. All arithmetic is
//! exact integer arithmetic with quotients rounded down, and a result that
//! does not fit into an `i64` is `None` rather than a wrong number.
//!
//! # The parts
//!
//! - [`model`] holds the data: bounds, points, geometries, features, tiles,
//!   layers and the [`model::Viewport`], which turns a center, a zoom and a
//!   surface size into geographic bounds and into the tiles to show.
//! - [`projection`] is the linear map between geographic bounds and a
//!   surface, with the laws of its round trip.
//! - [`engine`] holds the [`engine::tiles::TileCache`], the transform
//!   pipeline, the renderers, the dispatch of geometries by shape and the
//!   render pass over the tiles of a viewport.
//! - [`geodata`] is vector data as a source hands it over, before it is
//!   validated.
//! - [`view`] is the state of a map view that a host drives.
//!
//! The crate reads no file, opens no connection and draws on no screen. A
//! host reads and parses the data, replays the recorded drawing calls of an
//! [`engine::surface::Surface`] on its canvas, and runs the loads that a
//! render pass asks for.
//!
//! # What is taken on trust
//!
//! The concurrent map of the `dashmap` crate ([`concurrent_map`]), the
//! random identifiers of the `uuid` crate and the system clock are called
//! through small functions whose contracts are stated and not proved.

pub mod concurrent_map;
pub mod engine;
pub mod error;
pub mod fixed;
pub mod geodata;
pub mod model;
pub mod projection;
pub mod text;
pub mod view;

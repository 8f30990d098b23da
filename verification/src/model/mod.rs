//! The data model: bounds, points, geometries, features, tiles, layers and
//! the viewport.

pub mod bounds;
pub mod feature;
pub mod geometry;
pub mod layer;
pub mod point;
pub mod source;
pub mod tile;
pub mod viewport;

pub use self::bounds::GeoBounds;
pub use self::bounds::PixelBounds;
pub use self::bounds::TileBounds;
pub use self::bounds::Bounds;
pub use self::feature::GeoFeature;
pub use self::geometry::FeatureGeometry;
pub use self::layer::Layer;
pub use self::layer::LayerStyle;
pub use self::layer::LineStyle;
pub use self::layer::PointStyle;
pub use self::layer::PolygonStyle;
pub use self::point::GeoPoint;
pub use self::point::PixelSize;
pub use self::source::DataSource;
pub use self::source::GeoArrowFile;
pub use self::tile::Tile;
pub use self::tile::TileStatus;
pub use self::viewport::Viewport;

use vstd::prelude::*;
use crate::error::GeoArrowError;

verus! {

/// The result of a fallible operation of this crate.
pub type GeoArrowResult<T> = Result<T, GeoArrowError>;

/// The identifier of a feature.
pub type FeatureId = String;

/// The identifier of a layer.
pub type LayerId = String;

/// Seconds since the Unix epoch.
pub type Timestamp = u64;

} // verus!

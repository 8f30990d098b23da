//! A tile: one square of the grid of a zoom level, with the features that
//! were loaded for it.

use vstd::prelude::*;
use vstd::arithmetic::power2::pow2;
use crate::error::GeoArrowError;
use crate::fixed::narrow;
use crate::fixed::narrow_i128;
use crate::fixed::pow2_u64;
use crate::model::bounds::GeoBounds;
use crate::model::bounds::TileBounds;
use crate::model::bounds::MAX_ZOOM_LEVEL;
use crate::model::feature::FeatureModel;
use crate::model::feature::GeoFeature;
use crate::model::point::MAX_LATITUDE;
use crate::model::point::MAX_LONGITUDE;
use crate::model::Timestamp;

verus! {

/// How far the loading of a tile has come.
#[derive(Debug, PartialEq)]
pub enum TileStatus {
    NotLoaded,
    Loading,
    Loaded,
    Error(String),
}

/// The status of a tile as a mathematical value.
pub enum StatusModel {
    NotLoaded,
    Loading,
    Loaded,
    Error(Seq<char>),
}

impl View for TileStatus {
    type V = StatusModel;

    open spec fn view(&self) -> StatusModel {
        match self {
            TileStatus::NotLoaded => StatusModel::NotLoaded,
            TileStatus::Loading => StatusModel::Loading,
            TileStatus::Loaded => StatusModel::Loaded,
            TileStatus::Error(reason) => StatusModel::Error(reason@),
        }
    }
}

impl Clone for TileStatus {
    fn clone(&self) -> (copy: TileStatus)
        ensures
            copy@ == self@,
    {
        match self {
            TileStatus::NotLoaded => TileStatus::NotLoaded,
            TileStatus::Loading => TileStatus::Loading,
            TileStatus::Loaded => TileStatus::Loaded,
            TileStatus::Error(reason) => TileStatus::Error(reason.clone()),
        }
    }
}

/// One square of the tile grid.
#[derive(Debug)]
pub struct Tile {
    pub x: u32,
    pub y: u32,
    pub z: u8,
    pub bounds: TileBounds,
    pub features: Vec<GeoFeature>,
    pub status: TileStatus,
    pub last_accessed: Timestamp,
}

/// A tile as a mathematical value.
pub struct TileModel {
    pub x: u32,
    pub y: u32,
    pub z: u8,
    pub bounds: TileBounds,
    pub features: Seq<FeatureModel>,
    pub status: StatusModel,
    pub last_accessed: u64,
}

impl View for Tile {
    type V = TileModel;

    open spec fn view(&self) -> TileModel {
        TileModel {
            x: self.x,
            y: self.y,
            z: self.z,
            bounds: self.bounds,
            features: self.features.deep_view(),
            status: self.status@,
            last_accessed: self.last_accessed,
        }
    }
}

impl Clone for Tile {
    /// A copy with the same features, status and time of last access.
    fn clone(&self) -> (copy: Tile)
        ensures
            copy@ == self@,
    {
        let features: Vec<GeoFeature> = self.features.clone();
        assert(features.deep_view() =~= self.features.deep_view());
        Tile {
            x: self.x,
            y: self.y,
            z: self.z,
            bounds: self.bounds,
            features,
            status: self.status.clone(),
            last_accessed: self.last_accessed,
        }
    }
}

/// The seconds since the Unix epoch on the system clock, from
/// `SystemTime::now`; 0 where the clock stands before the epoch. Nothing is
/// stated of the number: it depends on when the call is made.
#[verifier::external_body]
pub(crate) fn now_seconds() -> (seconds: u64) {
    std::time::SystemTime::now().duration_since(std::time::UNIX_EPOCH).unwrap_or_default().as_secs()
}

impl TileBounds {
    /// The geographic rectangle of a rectangle in tile space. The unit
    /// square is the world: x runs from 180 degrees west to 180 degrees east
    /// and y from 90 degrees north to 90 degrees south. `None` where a
    /// side lies outside the number range.
    pub open spec fn spec_to_geo_bounds(&self) -> Option<GeoBounds> {
        match (
            narrow(self.min_x * 360 - MAX_LONGITUDE),
            narrow(MAX_LATITUDE - self.max_y * 180),
            narrow(self.max_x * 360 - MAX_LONGITUDE),
            narrow(MAX_LATITUDE - self.min_y * 180),
        ) {
            (Some(min_x), Some(min_y), Some(max_x), Some(max_y)) => Some(
                GeoBounds { min_x, min_y, max_x, max_y },
            ),
            _ => None,
        }
    }

    /// Transforms the rectangle from tile space to geographic space.
    pub fn to_geo_bounds(&self) -> (r: Option<GeoBounds>)
        ensures
            r == self.spec_to_geo_bounds(),
    {
        let west: Option<i64> = narrow_i128((self.min_x as i128) * 360 - (MAX_LONGITUDE as i128));
        let south: Option<i64> = narrow_i128((MAX_LATITUDE as i128) - (self.max_y as i128) * 180);
        let east: Option<i64> = narrow_i128((self.max_x as i128) * 360 - (MAX_LONGITUDE as i128));
        let north: Option<i64> = narrow_i128((MAX_LATITUDE as i128) - (self.min_y as i128) * 180);
        match (west, south, east, north) {
            (Some(min_x), Some(min_y), Some(max_x), Some(max_y)) => Some(
                GeoBounds::new(min_x, min_y, max_x, max_y),
            ),
            _ => None,
        }
    }
}

impl TileModel {
    /// A tile that nothing was loaded for yet.
    pub open spec fn fresh(x: u32, y: u32, z: u8, now: u64) -> TileModel {
        TileModel {
            x,
            y,
            z,
            bounds: TileBounds::spec_from_tile_coords(x, y, z),
            features: Seq::empty(),
            status: StatusModel::NotLoaded,
            last_accessed: now,
        }
    }

    /// The tile lies in the grid of zoom level `z`.
    pub open spec fn valid_for_zoom(self, z: u8) -> bool {
        self.x < pow2(z as nat) && self.y < pow2(z as nat) && self.z == z
    }

    /// The feature's cached bounds intersect the geographic rectangle of
    /// the tile.
    pub open spec fn accepts(self, feature: FeatureModel) -> bool {
        match self.bounds.spec_to_geo_bounds() {
            Some(square) => feature.bounds.spec_intersects(&square),
            None => false,
        }
    }
}

/// The message for the rule that the place of a tile breaks: a zoom level
/// above 20, or a column or row that is not below 2^z; `None` for a place
/// in the grid.
pub open spec fn spec_tile_rejection(x: u32, y: u32, z: u8) -> Option<Seq<char>> {
    if z > MAX_ZOOM_LEVEL {
        Some("Zoom level must be 0-20"@)
    } else if x >= pow2(z as nat) || y >= pow2(z as nat) {
        Some("Tile coordinates must be below 2^z"@)
    } else {
        None
    }
}

impl Tile {
    /// A tile that nothing was loaded for yet, last accessed at `now`.
    ///
    /// Fails for a place outside the grid: a zoom level above 20, or a
    /// column or row that is not below 2^z.
    pub fn created_at(x: u32, y: u32, z: u8, now: u64) -> (r: Result<Tile, GeoArrowError>)
        ensures
            match spec_tile_rejection(x, y, z) {
                Some(text) => r.is_err() && r.unwrap_err().is_validation(text),
                None => r.is_ok() && r.unwrap()@ == TileModel::fresh(x, y, z, now),
            },
    {
        if z > MAX_ZOOM_LEVEL {
            return Err(GeoArrowError::validation("Zoom level must be 0-20"));
        }
        let count: u64 = pow2_u64(z);
        if x as u64 >= count || y as u64 >= count {
            return Err(GeoArrowError::validation("Tile coordinates must be below 2^z"));
        }
        let features: Vec<GeoFeature> = Vec::new();
        assert(features.deep_view() =~= Seq::empty());
        Ok(
            Tile {
                x,
                y,
                z,
                bounds: TileBounds::from_tile_coords(x, y, z),
                features,
                status: TileStatus::NotLoaded,
                last_accessed: now,
            },
        )
    }

    /// A tile that nothing was loaded for yet, last accessed now by the
    /// system clock.
    ///
    /// Fails for a place outside the grid: a zoom level above 20, or a
    /// column or row that is not below 2^z.
    pub fn new(x: u32, y: u32, z: u8) -> (r: Result<Tile, GeoArrowError>)
        ensures
            match spec_tile_rejection(x, y, z) {
                Some(text) => r.is_err() && r.unwrap_err().is_validation(text),
                None => r.is_ok() && r.unwrap()@ == TileModel::fresh(
                    x,
                    y,
                    z,
                    r.unwrap().last_accessed,
                ),
            },
    {
        Tile::created_at(x, y, z, now_seconds())
    }

    /// Tells whether the tile lies in the grid of zoom level `z`: it is of
    /// that level and both its indices are below 2^z.
    pub fn is_valid_for_zoom(&self, z: u8) -> (r: bool)
        ensures
            r == self@.valid_for_zoom(z),
    {
        if z >= 32 {
            proof {
                vstd::arithmetic::power2::lemma2_to64();
                if z > 32 {
                    vstd::arithmetic::power2::lemma_pow2_strictly_increases(32, z as nat);
                }
            }
            self.z == z
        } else {
            let max_coord: u64 = pow2_u64(z);
            (self.x as u64) < max_coord && (self.y as u64) < max_coord && self.z == z
        }
    }

    /// Sets the time of last access.
    pub fn touch(&mut self, now: u64)
        ensures
            final(self)@ == (TileModel { last_accessed: now, ..old(self)@ }),
    {
        self.last_accessed = now;
    }

    /// Sets the time of last access to now by the system clock.
    pub fn update_access_time(&mut self)
        ensures
            final(self)@ == (TileModel { last_accessed: final(self).last_accessed, ..old(self)@ }),
    {
        self.touch(now_seconds());
    }

    /// Adds a feature to the tile. A feature whose bounds do not intersect
    /// the geographic rectangle of the tile is rejected and changes
    /// nothing.
    pub fn add_feature(&mut self, feature: GeoFeature) -> (r: Result<(), GeoArrowError>)
        ensures
            old(self)@.accepts(feature@) ==> r.is_ok() && final(self)@ == (TileModel {
                features: old(self)@.features.push(feature@),
                ..old(self)@
            }),
            !old(self)@.accepts(feature@) ==> r.is_err() && r.unwrap_err().is_validation(
                "Feature does not intersect tile bounds"@,
            ) && final(self)@ == old(self)@,
    {
        let accepted: bool = match self.bounds.to_geo_bounds() {
            Some(square) => feature.bounds.intersects(&square),
            None => false,
        };
        if !accepted {
            return Err(GeoArrowError::validation("Feature does not intersect tile bounds"));
        }
        self.features.push(feature);
        assert(self.features.deep_view() =~= old(self).features.deep_view().push(feature@));
        Ok(())
    }
}

} // verus!

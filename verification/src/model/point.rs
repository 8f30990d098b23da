//! Geographic points and pixel sizes.

use vstd::prelude::*;

verus! {

/// 90 degrees: the largest valid latitude.
pub const MAX_LATITUDE: i64 = 12_079_595_520;

/// 180 degrees: the largest valid longitude.
pub const MAX_LONGITUDE: i64 = 24_159_191_040;

/// A geographic point: latitude and longitude in fixed-point degrees.
#[derive(Clone, Copy, Debug, PartialEq, Eq, Structural)]
pub struct GeoPoint {
    pub lat: i64,
    pub lng: i64,
}

impl GeoPoint {
    /// A point is valid when its latitude lies in [-90, 90] and its
    /// longitude in [-180, 180], bounds included.
    pub open spec fn spec_is_valid(&self) -> bool {
        &&& -MAX_LATITUDE <= self.lat <= MAX_LATITUDE
        &&& -MAX_LONGITUDE <= self.lng <= MAX_LONGITUDE
    }

    pub fn new(lat: i64, lng: i64) -> (p: GeoPoint)
        ensures
            p == (GeoPoint { lat, lng }),
    {
        GeoPoint { lat, lng }
    }

    #[verifier::when_used_as_spec(spec_is_valid)]
    pub fn is_valid(&self) -> (v: bool)
        ensures
            v == self.spec_is_valid(),
    {
        self.lat >= -MAX_LATITUDE && self.lat <= MAX_LATITUDE && self.lng >= -MAX_LONGITUDE
            && self.lng <= MAX_LONGITUDE
    }
}

impl View for GeoPoint {
    type V = GeoPoint;

    open spec fn view(&self) -> GeoPoint {
        *self
    }
}

impl DeepView for GeoPoint {
    type V = GeoPoint;

    open spec fn deep_view(&self) -> GeoPoint {
        *self
    }
}

/// The size of a drawing surface in whole pixels.
#[derive(Clone, Copy, Debug, PartialEq, Eq, Structural)]
pub struct PixelSize {
    pub width: u32,
    pub height: u32,
}

impl PixelSize {
    pub fn new(width: u32, height: u32) -> (s: PixelSize)
        ensures
            s == (PixelSize { width, height }),
    {
        PixelSize { width, height }
    }
}

} // verus!

//! Rectangles in the three coordinate spaces: geographic, pixel and tile.
//!
//! The three types have the same shape and are never converted into one
//! another without a named transform.

use vstd::prelude::*;
use vstd::arithmetic::power2::pow2;
use crate::fixed::narrow;
use crate::fixed::narrow_i128;
use crate::fixed::pow2_u64;
use crate::fixed::UNIT;

verus! {

/// A rectangle in geographic space: x is the longitude, y the latitude.
#[derive(Clone, Copy, Debug, PartialEq, Eq, Structural)]
pub struct GeoBounds {
    pub min_x: i64,
    pub min_y: i64,
    pub max_x: i64,
    pub max_y: i64,
}

/// A rectangle in pixel space.
#[derive(Clone, Copy, Debug, PartialEq, Eq, Structural)]
pub struct PixelBounds {
    pub min_x: i64,
    pub min_y: i64,
    pub max_x: i64,
    pub max_y: i64,
}

/// A rectangle in tile space, where the whole world is the unit square.
#[derive(Clone, Copy, Debug, PartialEq, Eq, Structural)]
pub struct TileBounds {
    pub min_x: i64,
    pub min_y: i64,
    pub max_x: i64,
    pub max_y: i64,
}

/// The older name of [`GeoBounds`].
pub type Bounds = GeoBounds;

impl GeoBounds {
    /// The point lies inside the rectangle or on its edge.
    pub open spec fn spec_contains(&self, x: i64, y: i64) -> bool {
        self.min_x <= x <= self.max_x && self.min_y <= y <= self.max_y
    }

    /// The rectangle has no interior: on one axis the minimum is not below
    /// the maximum.
    pub open spec fn spec_is_empty(&self) -> bool {
        self.min_x >= self.max_x || self.min_y >= self.max_y
    }

    /// The two rectangles overlap in more than an edge.
    pub open spec fn spec_intersects(&self, other: &GeoBounds) -> bool {
        !(self.max_x <= other.min_x || self.min_x >= other.max_x || self.max_y <= other.min_y
            || self.min_y >= other.max_y)
    }

    pub fn new(min_x: i64, min_y: i64, max_x: i64, max_y: i64) -> (b: GeoBounds)
        ensures
            b == (GeoBounds { min_x, min_y, max_x, max_y }),
    {
        GeoBounds { min_x, min_y, max_x, max_y }
    }

    #[verifier::when_used_as_spec(spec_contains)]
    pub fn contains(&self, x: i64, y: i64) -> (r: bool)
        ensures
            r == self.spec_contains(x, y),
    {
        x >= self.min_x && x <= self.max_x && y >= self.min_y && y <= self.max_y
    }

    #[verifier::when_used_as_spec(spec_is_empty)]
    pub fn is_empty(&self) -> (r: bool)
        ensures
            r == self.spec_is_empty(),
    {
        self.min_x >= self.max_x || self.min_y >= self.max_y
    }

    #[verifier::when_used_as_spec(spec_intersects)]
    pub fn intersects(&self, other: &GeoBounds) -> (r: bool)
        ensures
            r == self.spec_intersects(other),
    {
        !(self.max_x <= other.min_x || self.min_x >= other.max_x || self.max_y <= other.min_y
            || self.min_y >= other.max_y)
    }
}

/// Whether two rectangles intersect does not depend on which of them is asked.
pub proof fn lemma_intersects_symmetric(a: GeoBounds, b: GeoBounds)
    ensures
        a.spec_intersects(&b) == b.spec_intersects(&a),
{
}

impl PixelBounds {
    pub fn new(min_x: i64, min_y: i64, max_x: i64, max_y: i64) -> (b: PixelBounds)
        ensures
            b == (PixelBounds { min_x, min_y, max_x, max_y }),
    {
        PixelBounds { min_x, min_y, max_x, max_y }
    }

    /// The horizontal extent, or `None` where it exceeds the range of the
    /// fixed-point numbers.
    pub fn width(&self) -> (w: Option<i64>)
        ensures
            w == narrow(self.max_x - self.min_x),
    {
        narrow_i128(self.max_x as i128 - self.min_x as i128)
    }

    /// The vertical extent, or `None` where it exceeds the range of the
    /// fixed-point numbers.
    pub fn height(&self) -> (h: Option<i64>)
        ensures
            h == narrow(self.max_y - self.min_y),
    {
        narrow_i128(self.max_y as i128 - self.min_y as i128)
    }
}

/// The deepest zoom level of the tile grid.
pub const MAX_ZOOM_LEVEL: u8 = 20;

impl TileBounds {
    /// The side of one tile at zoom level `z`: the unit square divided into
    /// 2^z equal parts.
    pub open spec fn spec_tile_size(z: u8) -> int {
        UNIT as int / pow2(z as nat) as int
    }

    /// The square that tile (`x`, `y`) covers at zoom level `z`.
    pub open spec fn spec_from_tile_coords(x: u32, y: u32, z: u8) -> TileBounds {
        let size = Self::spec_tile_size(z);
        TileBounds {
            min_x: (x * size) as i64,
            min_y: (y * size) as i64,
            max_x: (x * size + size) as i64,
            max_y: (y * size + size) as i64,
        }
    }

    pub fn new(min_x: i64, min_y: i64, max_x: i64, max_y: i64) -> (b: TileBounds)
        ensures
            b == (TileBounds { min_x, min_y, max_x, max_y }),
    {
        TileBounds { min_x, min_y, max_x, max_y }
    }

    /// The bounds of tile (`x`, `y`) at zoom level `z`.
    pub fn from_tile_coords(x: u32, y: u32, z: u8) -> (b: TileBounds)
        requires
            z <= MAX_ZOOM_LEVEL,
        ensures
            b == Self::spec_from_tile_coords(x, y, z),
            b.min_x == x * Self::spec_tile_size(z),
            b.min_y == y * Self::spec_tile_size(z),
            b.max_x - b.min_x == Self::spec_tile_size(z),
            b.max_y - b.min_y == Self::spec_tile_size(z),
    {
        let count: u64 = pow2_u64(z);
        assert(count <= 0x10_0000) by {
            vstd::arithmetic::power2::lemma2_to64();
            if z < 20 {
                vstd::arithmetic::power2::lemma_pow2_strictly_increases(z as nat, 20);
            }
        }
        let tile_size: i64 = UNIT / (count as i64);
        assert(0 < tile_size <= UNIT) by {
            crate::fixed::lemma_quotient_bound(UNIT as int, count as int);
            assert(UNIT as int / count as int > 0) by (nonlinear_arith)
                requires
                    1 <= count <= 0x10_0000,
                    UNIT == 134_217_728,
            ;
        }
        assert(x * tile_size <= 0xffff_ffff * UNIT) by (nonlinear_arith)
            requires
                0 <= x <= 0xffff_ffff,
                0 < tile_size <= UNIT,
        ;
        assert(y * tile_size <= 0xffff_ffff * UNIT) by (nonlinear_arith)
            requires
                0 <= y <= 0xffff_ffff,
                0 < tile_size <= UNIT,
        ;
        assert(x * tile_size >= 0 && y * tile_size >= 0) by (nonlinear_arith)
            requires
                0 <= x,
                0 <= y,
                0 < tile_size,
        ;
        let min_x: i64 = (x as i64) * tile_size;
        let min_y: i64 = (y as i64) * tile_size;
        TileBounds::new(min_x, min_y, min_x + tile_size, min_y + tile_size)
    }
}

} // verus!

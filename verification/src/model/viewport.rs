//! The viewport: the visible window on the world, given by a center, a zoom
//! level and the size of the surface.
//!
//! The geographic bounds are derived from those three and recomputed by every
//! change, so a viewport never shows stale bounds. The model is linear: one
//! pixel covers 360/256 degrees of longitude and 180/256 degrees of latitude
//! at zoom level 0 and half of that at each further level. It is a flat
//! approximation, not a spherical projection. The rotation is stored and does
//! not turn the bounds.

use vstd::prelude::*;
use vstd::arithmetic::div_mod::lemma_div_is_ordered;
use vstd::arithmetic::div_mod::lemma_div_is_ordered_by_denominator;
use vstd::arithmetic::power2::pow2;
use crate::error::GeoArrowError;
use crate::fixed::ceil_div;
use crate::fixed::div_ceil;
use crate::fixed::div_floor;
use crate::fixed::pow2_u64;
use crate::fixed::UNIT;
use crate::model::bounds::GeoBounds;
use crate::model::bounds::PixelBounds;
use crate::model::bounds::TileBounds;
use crate::model::point::GeoPoint;
use crate::model::point::MAX_LATITUDE;
use crate::model::point::MAX_LONGITUDE;
use crate::model::point::PixelSize;
use crate::projection::ScreenPoint;
use crate::projection::spec_screen_to_world;
use crate::projection::spec_world_to_screen;

verus! {

/// Zoom level 20 as a fixed-point number: the largest zoom of a viewport.
pub const MAX_ZOOM: i64 = 2_684_354_560;

/// The visible window on the world.
#[derive(Clone, Copy, Debug)]
pub struct Viewport {
    center: GeoPoint,
    zoom: i64,
    rotation: i64,
    size: PixelSize,
    bounds: GeoBounds,
    pixel_bounds: PixelBounds,
}

/// What a viewport holds.
pub struct ViewportState {
    pub center: GeoPoint,
    pub zoom: i64,
    pub rotation: i64,
    pub size: PixelSize,
    pub bounds: GeoBounds,
    pub pixel_bounds: PixelBounds,
}

/// The whole zoom level of a fixed-point zoom.
pub open spec fn spec_zoom_level(zoom: i64) -> int {
    zoom as int / UNIT as int
}

/// Half the width of the window in fixed-point degrees: half the pixels
/// times the scale 1 / 2^level times 360/256.
pub open spec fn spec_half_width(size: PixelSize, zoom: i64) -> int {
    (size.width * 360 * UNIT) / (512 * pow2(spec_zoom_level(zoom) as nat) as int)
}

/// Half the height of the window in fixed-point degrees: half the pixels
/// times the scale 1 / 2^level times 180/256.
pub open spec fn spec_half_height(size: PixelSize, zoom: i64) -> int {
    (size.height * 180 * UNIT) / (512 * pow2(spec_zoom_level(zoom) as nat) as int)
}

/// The bounds of the window: the center, plus and minus the half extents.
pub open spec fn spec_view_bounds(center: GeoPoint, zoom: i64, size: PixelSize) -> GeoBounds {
    GeoBounds {
        min_x: (center.lng - spec_half_width(size, zoom)) as i64,
        min_y: (center.lat - spec_half_height(size, zoom)) as i64,
        max_x: (center.lng + spec_half_width(size, zoom)) as i64,
        max_y: (center.lat + spec_half_height(size, zoom)) as i64,
    }
}

/// The surface of the given size as a rectangle with its origin at the top
/// left.
pub open spec fn spec_pixel_bounds(size: PixelSize) -> PixelBounds {
    PixelBounds { min_x: 0, min_y: 0, max_x: (size.width * UNIT) as i64, max_y: (size.height * UNIT) as i64 }
}

/// The message for the first rule that the parts of a viewport break, in
/// the order center, zoom, size; `None` where they break none.
pub open spec fn spec_rejection(center: GeoPoint, zoom: i64, size: PixelSize) -> Option<Seq<char>> {
    if !center.spec_is_valid() {
        Some("Invalid center coordinates"@)
    } else if zoom < 0 || zoom > MAX_ZOOM {
        Some("Zoom must be between 0.0 and 20.0"@)
    } else if size.width == 0 || size.height == 0 {
        Some("Size dimensions must be greater than 0"@)
    } else {
        None
    }
}

/// A tile index brought into the grid of `count` tiles per axis.
pub open spec fn spec_clamp_index(v: int, count: int) -> int {
    if v < 0 {
        0
    } else if v > count - 1 {
        count - 1
    } else {
        v
    }
}

/// A block of the tile grid: every column from the first to the last and
/// every row from the first to the last.
pub struct TileRange {
    pub first_x: int,
    pub last_x: int,
    pub first_y: int,
    pub last_y: int,
}

/// The first and last tile column and the first and last tile row that a
/// rectangle touches in the grid of a zoom level.
///
/// A column is the fraction of the longitude within [-180, 180] times the
/// number of tiles; a row is the fraction of the latitude within [-90, 90],
/// counted from the north, times the number of tiles. The first index is
/// rounded down and the last one up, and both are brought into the grid.
pub open spec fn spec_tile_range(b: GeoBounds, level: int) -> TileRange {
    let count = pow2(level as nat) as int;
    TileRange {
        first_x: spec_clamp_index(((b.min_x + MAX_LONGITUDE) * count) / (2 * MAX_LONGITUDE), count),
        last_x: spec_clamp_index(
            ceil_div((b.max_x + MAX_LONGITUDE) * count, 2 * MAX_LONGITUDE),
            count,
        ),
        first_y: spec_clamp_index(((MAX_LATITUDE - b.max_y) * count) / (2 * MAX_LATITUDE), count),
        last_y: spec_clamp_index(
            ceil_div((MAX_LATITUDE - b.min_y) * count, 2 * MAX_LATITUDE),
            count,
        ),
    }
}

/// The tiles of a range at a zoom level, column by column and within a
/// column row by row.
pub open spec fn spec_tiles_of(r: TileRange, level: int) -> Seq<(u32, u32, u8)> {
    if r.first_x > r.last_x || r.first_y > r.last_y {
        Seq::empty()
    } else {
        let rows = r.last_y - r.first_y + 1;
        Seq::new(
            ((r.last_x - r.first_x + 1) * rows) as nat,
            |i: int| ((r.first_x + i / rows) as u32, (r.first_y + i % rows) as u32, level as u8),
        )
    }
}

impl ViewportState {
    /// The place of a geographic point on the surface; the origin where the
    /// bounds are empty.
    pub open spec fn world_to_screen(self, p: GeoPoint) -> ScreenPoint {
        spec_world_to_screen(self.bounds, self.pixel_bounds.max_x, self.pixel_bounds.max_y, p)
    }

    /// The geographic point shown at a place of the surface; the center
    /// where the bounds are empty.
    pub open spec fn screen_to_world(self, x: i64, y: i64) -> Option<GeoPoint> {
        if self.bounds.spec_is_empty() {
            Some(self.center)
        } else {
            spec_screen_to_world(
                self.bounds,
                self.pixel_bounds.max_x,
                self.pixel_bounds.max_y,
                x,
                y,
            )
        }
    }

    /// The tiles needed to cover the window at its whole zoom level.
    pub open spec fn required_tiles(self) -> Seq<(u32, u32, u8)> {
        spec_tiles_of(
            spec_tile_range(self.bounds, spec_zoom_level(self.zoom)),
            spec_zoom_level(self.zoom),
        )
    }
}

/// A tile is among the tiles of a range where it is of the zoom level and
/// lies within the columns and the rows of the range.
pub proof fn lemma_tiles_of_range(r: TileRange, level: int, t: (u32, u32, u8))
    requires
        0 <= r.first_x && r.last_x < 0x10_0000,
        0 <= r.first_y && r.last_y < 0x10_0000,
        0 <= level <= 255,
    ensures
        spec_tiles_of(r, level).contains(t) <==> (t.2 == level && r.first_x <= t.0 <= r.last_x
            && r.first_y <= t.1 <= r.last_y),
{
    let tiles = spec_tiles_of(r, level);
    let rows = r.last_y - r.first_y + 1;
    let columns = r.last_x - r.first_x + 1;
    if t.2 == level && r.first_x <= t.0 <= r.last_x && r.first_y <= t.1 <= r.last_y {
        let i: int = (t.0 - r.first_x) * rows + (t.1 - r.first_y);
        vstd::arithmetic::div_mod::lemma_fundamental_div_mod_converse(
            i,
            rows,
            t.0 - r.first_x,
            t.1 - r.first_y,
        );
        assert(0 <= i < columns * rows) by (nonlinear_arith)
            requires
                i == (t.0 - r.first_x) * rows + (t.1 - r.first_y),
                0 <= t.1 - r.first_y < rows,
                0 <= t.0 - r.first_x < columns,
        ;
        assert(tiles[i] == t);
    }
    if tiles.contains(t) {
        let i = choose|i: int| 0 <= i < tiles.len() && tiles[i] == t;
        vstd::arithmetic::div_mod::lemma_fundamental_div_mod(i, rows);
        crate::fixed::lemma_quotient_bound(i, rows);
        assert(i / rows < columns) by (nonlinear_arith)
            requires
                i == rows * (i / rows) + i % rows,
                0 <= i % rows,
                i < columns * rows,
                rows > 0,
        ;
    }
}

/// At zoom level 0 the grid has one tile, and every window needs exactly it.
pub proof fn lemma_single_tile_at_level_zero(v: ViewportState)
    requires
        spec_zoom_level(v.zoom) == 0,
    ensures
        v.required_tiles() =~= seq![(0u32, 0u32, 0u8)],
{
    vstd::arithmetic::power2::lemma2_to64();
    let r = spec_tile_range(v.bounds, 0);
    assert(pow2(0) == 1);
    assert(r.first_x == 0 && r.last_x == 0 && r.first_y == 0 && r.last_y == 0);
    let tiles = spec_tiles_of(r, 0);
    let rows = r.last_y - r.first_y + 1;
    assert((r.last_x - r.first_x + 1) * rows == 1) by (nonlinear_arith)
        requires
            r.last_x - r.first_x + 1 == 1,
            rows == 1,
    ;
    assert(tiles.len() == 1);
    assert(0int / 1 == 0 && 0int % 1 == 0);
    assert(tiles[0] == (0u32, 0u32, 0u8));
}

/// A window of a well-formed viewport needs at least one tile, and every
/// tile it needs lies in the grid of its zoom level.
pub proof fn lemma_required_tiles_in_grid(v: ViewportState)
    requires
        v.wf(),
    ensures
        v.required_tiles().len() > 0,
        forall|i: int|
            0 <= i < v.required_tiles().len() ==> {
                let t = #[trigger] v.required_tiles()[i];
                &&& t.0 < pow2(spec_zoom_level(v.zoom) as nat)
                &&& t.1 < pow2(spec_zoom_level(v.zoom) as nat)
                &&& t.2 == spec_zoom_level(v.zoom)
            },
{
    let level = spec_zoom_level(v.zoom);
    let count = pow2(level as nat) as int;
    let r = spec_tile_range(v.bounds, level);
    lemma_extent_bounds(v.size, v.zoom);
    vstd::arithmetic::power2::lemma2_to64();
    vstd::arithmetic::power2::lemma_pow2_pos(level as nat);
    if level < 20 {
        vstd::arithmetic::power2::lemma_pow2_strictly_increases(level as nat, 20);
    }
    let b = v.bounds;
    let ax: int = (b.min_x + MAX_LONGITUDE) * count;
    let bx: int = (b.max_x + MAX_LONGITUDE) * count;
    let ay: int = (MAX_LATITUDE - b.max_y) * count;
    let by: int = (MAX_LATITUDE - b.min_y) * count;
    assert(ax <= bx && ay <= by) by (nonlinear_arith)
        requires
            ax == (b.min_x + MAX_LONGITUDE) * count,
            bx == (b.max_x + MAX_LONGITUDE) * count,
            ay == (MAX_LATITUDE - b.max_y) * count,
            by == (MAX_LATITUDE - b.min_y) * count,
            b.min_x <= b.max_x,
            b.min_y <= b.max_y,
            count > 0,
    ;
    lemma_floor_below_ceil(ax, bx, 2 * MAX_LONGITUDE);
    lemma_floor_below_ceil(ay, by, 2 * MAX_LATITUDE);
    let rows = r.last_y - r.first_y + 1;
    let columns = r.last_x - r.first_x + 1;
    assert(columns * rows > 0) by (nonlinear_arith)
        requires
            columns > 0,
            rows > 0,
    ;
    assert forall|i: int| 0 <= i < v.required_tiles().len() implies {
        let t = #[trigger] v.required_tiles()[i];
        &&& t.0 < count
        &&& t.1 < count
        &&& t.2 == level
    } by {
        vstd::arithmetic::div_mod::lemma_fundamental_div_mod(i, rows);
        crate::fixed::lemma_quotient_bound(i, rows);
        assert(i / rows < columns) by (nonlinear_arith)
            requires
                i == rows * (i / rows) + i % rows,
                0 <= i % rows,
                i < columns * rows,
                rows > 0,
        ;
    }
}

/// A place within the surface of a well-formed viewport, taken to the world
/// and back, comes back at most where it started and less than one unit plus
/// the size of one geographic unit away; the point in between lies within
/// the bounds.
pub proof fn lemma_viewport_round_trip(v: ViewportState, x: i64, y: i64)
    requires
        v.wf(),
        0 <= x <= v.pixel_bounds.max_x,
        0 <= y <= v.pixel_bounds.max_y,
    ensures
        v.screen_to_world(x, y).is_some(),
        ({
            let p = v.screen_to_world(x, y).unwrap();
            let back = v.world_to_screen(p);
            &&& v.bounds.spec_contains(p.lng, p.lat)
            &&& back.0.is_some() && back.1.is_some()
            &&& 0 <= x - back.0.unwrap()
            &&& (x - back.0.unwrap() - 1) * (v.bounds.max_x - v.bounds.min_x)
                < v.pixel_bounds.max_x
            &&& 0 <= back.1.unwrap() - y
            &&& (back.1.unwrap() - y - 1) * (v.bounds.max_y - v.bounds.min_y)
                < v.pixel_bounds.max_y
        }),
{
    lemma_extent_bounds(v.size, v.zoom);
    assert(v.pixel_bounds.max_x > 0 && v.pixel_bounds.max_y > 0) by (nonlinear_arith)
        requires
            v.pixel_bounds.max_x == v.size.width * UNIT,
            v.pixel_bounds.max_y == v.size.height * UNIT,
            v.size.width > 0,
            v.size.height > 0,
            UNIT == 134_217_728,
    ;
    crate::projection::lemma_screen_round_trip(
        v.bounds,
        v.pixel_bounds.max_x,
        v.pixel_bounds.max_y,
        x,
        y,
    );
}

/// Along one axis of the grid, a value between two edges falls into a tile
/// between the first and the last tile of the edges, and that tile holds
/// the value. The values are counted from the start of the axis, `tile` is
/// the extent of one tile and `count` the number of tiles.
pub proof fn lemma_axis_cover(low: int, value: int, high: int, count: int, tile: int)
    requires
        count >= 1,
        tile >= 1,
        low <= value <= high,
        0 <= value <= tile * count,
    ensures
        ({
            let extent = tile * count;
            let at = spec_clamp_index((value * count) / extent, count);
            &&& spec_clamp_index((low * count) / extent, count) <= at
            &&& at <= spec_clamp_index(ceil_div(high * count, extent), count)
            &&& 0 <= at <= count - 1
            &&& at * tile <= value <= (at + 1) * tile
        }),
{
    let extent = tile * count;
    assert(extent >= 1) by (nonlinear_arith)
        requires
            extent == tile * count,
            count >= 1,
            tile >= 1,
    ;
    let raw = (value * count) / extent;
    let rest = (value * count) % extent;
    vstd::arithmetic::div_mod::lemma_fundamental_div_mod(value * count, extent);
    assert(low * count <= value * count <= high * count) by (nonlinear_arith)
        requires
            low <= value <= high,
            count >= 1,
    ;
    lemma_div_is_ordered(low * count, value * count, extent);
    lemma_floor_below_ceil(value * count, high * count, extent);
    assert(0 <= raw <= count) by (nonlinear_arith)
        requires
            value * count == extent * raw + rest,
            0 <= rest < extent,
            extent == tile * count,
            0 <= value <= tile * count,
            count >= 1,
            tile >= 1,
    ;
    let at = spec_clamp_index(raw, count);
    if raw <= count - 1 {
        assert(at * tile <= value && value <= (at + 1) * tile) by (nonlinear_arith)
            requires
                at == raw,
                value * count == extent * raw + rest,
                0 <= rest < extent,
                extent == tile * count,
                count >= 1,
        ;
    } else {
        assert(at * tile <= value && value <= (at + 1) * tile) by (nonlinear_arith)
            requires
                at == count - 1,
                raw == count,
                value * count == extent * raw + rest,
                0 <= rest < extent,
                extent == tile * count,
                value <= tile * count,
                count >= 1,
                tile >= 1,
        ;
    }
}

/// The tiles that a well-formed viewport needs cover what it shows of the
/// world: every valid point within its bounds lies in the geographic
/// rectangle of one of them.
pub proof fn lemma_required_tiles_cover(v: ViewportState, p: GeoPoint)
    requires
        v.wf(),
        p.spec_is_valid(),
        v.bounds.spec_contains(p.lng, p.lat),
    ensures
        exists|i: int|
            0 <= i < v.required_tiles().len() && ({
                let t = #[trigger] v.required_tiles()[i];
                let square = TileBounds::spec_from_tile_coords(t.0, t.1, t.2).spec_to_geo_bounds();
                square.is_some() && square.unwrap().spec_contains(p.lng, p.lat)
            }),
{
    let level = spec_zoom_level(v.zoom);
    lemma_extent_bounds(v.size, v.zoom);
    vstd::arithmetic::power2::lemma2_to64();
    vstd::arithmetic::power2::lemma_pow2_pos(level as nat);
    vstd::arithmetic::power2::lemma_pow2_adds(level as nat, (27 - level) as nat);
    vstd::arithmetic::power2::lemma_pow2_pos((27 - level) as nat);
    if level < 20 {
        vstd::arithmetic::power2::lemma_pow2_strictly_increases(level as nat, 20);
    }
    let count = pow2(level as nat) as int;
    let side = pow2((27 - level) as nat) as int;
    assert(count * side == UNIT);
    assert(UNIT as int == side * count + 0) by (nonlinear_arith)
        requires
            count * side == UNIT,
    ;
    vstd::arithmetic::div_mod::lemma_fundamental_div_mod_converse(UNIT as int, count, side, 0);
    assert(TileBounds::spec_tile_size(level as u8) == side);
    assert(side >= 1 && side <= UNIT) by (nonlinear_arith)
        requires
            count * side == UNIT,
            count >= 1,
            side > 0,
    ;
    let b = v.bounds;
    // Columns: longitudes counted from 180 degrees west.
    assert(360 * side * count == 2 * MAX_LONGITUDE) by (nonlinear_arith)
        requires
            count * side == UNIT,
            UNIT == 134_217_728,
            MAX_LONGITUDE == 24_159_191_040,
    ;
    lemma_axis_cover(
        b.min_x + MAX_LONGITUDE,
        p.lng + MAX_LONGITUDE,
        b.max_x + MAX_LONGITUDE,
        count,
        360 * side,
    );
    // Rows: latitudes counted from 90 degrees north, southwards.
    assert(180 * side * count == 2 * MAX_LATITUDE) by (nonlinear_arith)
        requires
            count * side == UNIT,
            UNIT == 134_217_728,
            MAX_LATITUDE == 12_079_595_520,
    ;
    lemma_axis_cover(
        MAX_LATITUDE - b.max_y,
        MAX_LATITUDE - p.lat,
        MAX_LATITUDE - b.min_y,
        count,
        180 * side,
    );
    let column = spec_clamp_index(
        ((p.lng + MAX_LONGITUDE) * count) / (2 * MAX_LONGITUDE),
        count,
    );
    let row = spec_clamp_index(((MAX_LATITUDE - p.lat) * count) / (2 * MAX_LATITUDE), count);
    let range = spec_tile_range(b, level);
    assert(range.first_x <= column <= range.last_x);
    assert(range.first_y <= row <= range.last_y);
    let t = (column as u32, row as u32, level as u8);
    lemma_tiles_of_range(range, level, t);
    let i = choose|i: int| 0 <= i < v.required_tiles().len() && v.required_tiles()[i] == t;
    let tile = TileBounds::spec_from_tile_coords(t.0, t.1, t.2);
    assert(0 <= column * side && column * side + side <= UNIT && 0 <= row * side && row * side
        + side <= UNIT) by (nonlinear_arith)
        requires
            0 <= column <= count - 1,
            0 <= row <= count - 1,
            count * side == UNIT,
            side >= 1,
    ;
    assert(tile.min_x == column * side && tile.max_x == column * side + side);
    assert(tile.min_y == row * side && tile.max_y == row * side + side);
    assert(tile.min_x * 360 == column * (360 * side) && tile.max_x * 360 == (column + 1) * (360
        * side) && tile.min_y * 180 == row * (180 * side) && tile.max_y * 180 == (row + 1) * (180
        * side)) by (nonlinear_arith)
        requires
            tile.min_x == column * side,
            tile.max_x == column * side + side,
            tile.min_y == row * side,
            tile.max_y == row * side + side,
    ;
    let square = tile.spec_to_geo_bounds();
    assert(square.is_some());
    assert(square.unwrap().spec_contains(p.lng, p.lat));
    assert(v.required_tiles()[i] == t);
}

/// A quotient lies within a bound where the dividend lies within the bound
/// times the divisor.
pub proof fn lemma_quotient_within(n: int, d: int, bound: int)
    requires
        d > 0,
        -bound * d <= n <= bound * d,
    ensures
        -bound <= n / d <= bound,
{
    vstd::arithmetic::div_mod::lemma_fundamental_div_mod(n, d);
    let q = n / d;
    let r = n % d;
    assert(-bound <= q <= bound) by (nonlinear_arith)
        requires
            n == d * q + r,
            0 <= r < d,
            -bound * d <= n <= bound * d,
            d > 0,
    ;
}

/// Every valid point has a place on the surface of a well-formed viewport:
/// both ordinates of the place are numbers, however far from the window the
/// point lies.
pub proof fn lemma_valid_point_has_a_place(v: ViewportState, p: GeoPoint)
    requires
        v.wf(),
        p.spec_is_valid(),
    ensures
        v.world_to_screen(p).0.is_some(),
        v.world_to_screen(p).1.is_some(),
{
    lemma_extent_bounds(v.size, v.zoom);
    lemma_extent_exact(v.size, v.zoom);
    let level = spec_zoom_level(v.zoom);
    let wide = pow2((21 - level) as nat) as int;
    let tall = pow2((20 - level) as nat) as int;
    vstd::arithmetic::power2::lemma_pow2_pos((21 - level) as nat);
    vstd::arithmetic::power2::lemma_pow2_pos((20 - level) as nat);
    let w = v.size.width as int;
    let h = v.size.height as int;
    let unit = UNIT as int;
    let half_w = spec_half_width(v.size, v.zoom);
    let half_h = spec_half_height(v.size, v.zoom);
    let b = v.bounds;
    // Across: the distance from the left edge, times the width, lies within
    // the bound times the extent.
    let ax: int = p.lng - b.min_x;
    let surface_w: int = w * unit;
    let extent_w: int = b.max_x - b.min_x;
    let bound_w: int = w * unit + 4 * unit * unit;
    assert(extent_w == 90 * (w * wide) && half_w == 45 * (w * wide)) by (nonlinear_arith)
        requires
            half_w == w * 45 * wide,
            extent_w == 2 * half_w,
    ;
    assert(-bound_w * extent_w <= ax * surface_w <= bound_w * extent_w) by (nonlinear_arith)
        requires
            half_w - 360 * unit <= ax <= half_w + 360 * unit,
            half_w == 45 * (w * wide),
            extent_w == 90 * (w * wide),
            surface_w == w * unit,
            bound_w == w * unit + 4 * unit * unit,
            w >= 1,
            wide >= 1,
            unit == 134_217_728,
    ;
    lemma_quotient_within(ax * surface_w, extent_w, bound_w);
    assert(bound_w <= 0xffff_ffff * unit + 4 * unit * unit) by (nonlinear_arith)
        requires
            bound_w == w * unit + 4 * unit * unit,
            w <= 0xffff_ffff,
            unit == 134_217_728,
    ;
    // Down: the same with the height, counted from the top.
    let ay: int = p.lat - b.min_y;
    let surface_h: int = h * unit;
    let extent_h: int = b.max_y - b.min_y;
    let bound_h: int = h * unit + 4 * unit * unit;
    assert(extent_h == 90 * (h * tall) && half_h == 45 * (h * tall)) by (nonlinear_arith)
        requires
            half_h == h * 45 * tall,
            extent_h == 2 * half_h,
    ;
    assert(-bound_h * extent_h <= ay * surface_h <= bound_h * extent_h) by (nonlinear_arith)
        requires
            half_h - 180 * unit <= ay <= half_h + 180 * unit,
            half_h == 45 * (h * tall),
            extent_h == 90 * (h * tall),
            surface_h == h * unit,
            bound_h == h * unit + 4 * unit * unit,
            h >= 1,
            tall >= 1,
            unit == 134_217_728,
    ;
    lemma_quotient_within(ay * surface_h, extent_h, bound_h);
    assert(bound_h <= 0xffff_ffff * unit + 4 * unit * unit && 0 <= surface_h <= 0xffff_ffff * unit)
        by (nonlinear_arith)
        requires
            bound_h == h * unit + 4 * unit * unit,
            surface_h == h * unit,
            1 <= h <= 0xffff_ffff,
            unit == 134_217_728,
    ;
    assert(v.pixel_bounds.max_x == surface_w && v.pixel_bounds.max_y == surface_h);
}

/// Rounding down gives no more than rounding up, also of a larger dividend.
pub proof fn lemma_floor_below_ceil(a: int, b: int, d: int)
    requires
        a <= b,
        d > 0,
    ensures
        a / d <= ceil_div(b, d),
{
    lemma_div_is_ordered(a, b, d);
    vstd::arithmetic::div_mod::lemma_fundamental_div_mod(b, d);
    vstd::arithmetic::div_mod::lemma_fundamental_div_mod(-b, d);
    let q = b / d;
    let c = (-b) / d;
    assert(-c >= q) by (nonlinear_arith)
        requires
            b == d * q + b % d,
            -b == d * c + (-b) % d,
            0 <= b % d < d,
            0 <= (-b) % d < d,
            d > 0,
    ;
}

impl ViewportState {
    /// The state that the three parts and a rotation determine.
    pub open spec fn of(center: GeoPoint, zoom: i64, rotation: i64, size: PixelSize) -> ViewportState {
        ViewportState {
            center,
            zoom,
            rotation,
            size,
            bounds: spec_view_bounds(center, zoom, size),
            pixel_bounds: spec_pixel_bounds(size),
        }
    }

    /// The parts obey the rules and the bounds are the ones derived from them.
    pub open spec fn wf(self) -> bool {
        &&& spec_rejection(self.center, self.zoom, self.size).is_none()
        &&& self == Self::of(self.center, self.zoom, self.rotation, self.size)
    }
}

/// The half extents of a well-formed viewport are positive and small enough
/// that its bounds are far from the ends of the number range.
pub proof fn lemma_extent_bounds(size: PixelSize, zoom: i64)
    requires
        0 <= zoom <= MAX_ZOOM,
    ensures
        0 <= spec_zoom_level(zoom) <= 20,
        0 <= spec_half_width(size, zoom) <= 405_323_966_368_972_800,
        0 <= spec_half_height(size, zoom) <= 202_661_983_184_486_400,
        size.width > 0 ==> spec_half_width(size, zoom) >= 90,
        size.height > 0 ==> spec_half_height(size, zoom) >= 45,
{
    let level = spec_zoom_level(zoom);
    assert(0 <= level <= 20) by {
        crate::fixed::lemma_quotient_bound(zoom as int, UNIT as int);
        lemma_div_is_ordered(zoom as int, MAX_ZOOM as int, UNIT as int);
        assert(2_684_354_560int / 134_217_728int == 20);
    }
    let count = pow2(level as nat) as int;
    assert(1 <= count <= 0x10_0000) by {
        vstd::arithmetic::power2::lemma2_to64();
        vstd::arithmetic::power2::lemma_pow2_pos(level as nat);
        if level < 20 {
            vstd::arithmetic::power2::lemma_pow2_strictly_increases(level as nat, 20);
        }
    }
    let nw: int = size.width * 360 * UNIT;
    let nh: int = size.height * 180 * UNIT;
    let d: int = 512 * count;
    assert(0 <= nw <= 0xffff_ffff * 360 * UNIT && 0 <= nh <= 0xffff_ffff * 180 * UNIT)
        by (nonlinear_arith)
        requires
            nw == size.width * 360 * UNIT,
            nh == size.height * 180 * UNIT,
            0 <= size.width <= 0xffff_ffff,
            0 <= size.height <= 0xffff_ffff,
            UNIT == 134_217_728,
    ;
    let top_w: int = 207_525_870_780_914_073_600;
    let top_h: int = 103_762_935_390_457_036_800;
    let deepest: int = 536_870_912;
    let unit_w: int = 48_318_382_080;
    let unit_h: int = 24_159_191_040;
    assert(top_w == 0xffff_ffff * 360 * UNIT && top_h == 0xffff_ffff * 180 * UNIT);
    assert(unit_w == 360 * UNIT && unit_h == 180 * UNIT);
    lemma_div_is_ordered_by_denominator(nw, 512, d);
    lemma_div_is_ordered_by_denominator(nh, 512, d);
    lemma_div_is_ordered(nw, top_w, 512);
    lemma_div_is_ordered(nh, top_h, 512);
    assert(top_w / 512 == 405_323_966_368_972_800);
    assert(top_h / 512 == 202_661_983_184_486_400);
    crate::fixed::lemma_quotient_bound(nw, d);
    crate::fixed::lemma_quotient_bound(nh, d);
    if size.width > 0 {
        lemma_div_is_ordered_by_denominator(nw, d, deepest);
        assert(nw >= 360 * UNIT) by (nonlinear_arith)
            requires
                nw == size.width * 360 * UNIT,
                size.width >= 1,
                UNIT == 134_217_728,
        ;
        lemma_div_is_ordered(unit_w, nw, deepest);
        assert(unit_w / deepest == 90);
    }
    if size.height > 0 {
        lemma_div_is_ordered_by_denominator(nh, d, deepest);
        assert(nh >= 180 * UNIT) by (nonlinear_arith)
            requires
                nh == size.height * 180 * UNIT,
                size.height >= 1,
                UNIT == 134_217_728,
        ;
        lemma_div_is_ordered(unit_h, nh, deepest);
        assert(unit_h / deepest == 45);
    }
}

/// The half extents of a viewport are whole numbers of units: nothing is
/// lost to rounding when the bounds are derived.
pub proof fn lemma_extent_exact(size: PixelSize, zoom: i64)
    requires
        0 <= zoom <= MAX_ZOOM,
    ensures
        spec_half_width(size, zoom) == size.width * 45 * pow2(
            (21 - spec_zoom_level(zoom)) as nat,
        ),
        spec_half_height(size, zoom) == size.height * 45 * pow2(
            (20 - spec_zoom_level(zoom)) as nat,
        ),
{
    lemma_extent_bounds(size, zoom);
    let level = spec_zoom_level(zoom);
    let count = pow2(level as nat) as int;
    let wide = pow2((21 - level) as nat) as int;
    let tall = pow2((20 - level) as nat) as int;
    vstd::arithmetic::power2::lemma2_to64();
    vstd::arithmetic::power2::lemma_pow2_pos(level as nat);
    vstd::arithmetic::power2::lemma_pow2_adds(level as nat, (21 - level) as nat);
    vstd::arithmetic::power2::lemma_pow2_adds(level as nat, (20 - level) as nat);
    assert(count * wide == 0x20_0000 && count * tall == 0x10_0000);
    let d: int = 512 * count;
    assert(size.width * 360 * UNIT == (size.width * 45 * wide) * d + 0) by (nonlinear_arith)
        requires
            count * wide == 0x20_0000,
            d == 512 * count,
            UNIT == 134_217_728,
    ;
    assert(size.height * 180 * UNIT == (size.height * 45 * tall) * d + 0) by (nonlinear_arith)
        requires
            count * tall == 0x10_0000,
            d == 512 * count,
            UNIT == 134_217_728,
    ;
    vstd::arithmetic::div_mod::lemma_fundamental_div_mod_converse(
        size.width * 360 * UNIT,
        d,
        size.width * 45 * wide,
        0,
    );
    vstd::arithmetic::div_mod::lemma_fundamental_div_mod_converse(
        size.height * 180 * UNIT,
        d,
        size.height * 45 * tall,
        0,
    );
}

/// The whole zoom level of a zoom within range.
fn zoom_level(zoom: i64) -> (level: u8)
    requires
        0 <= zoom <= MAX_ZOOM,
    ensures
        level == spec_zoom_level(zoom),
        level <= 20,
{
    proof {
        lemma_extent_bounds(PixelSize { width: 1, height: 1 }, zoom);
    }
    (zoom / UNIT) as u8
}

/// Derives the bounds of the window from its parts.
fn derive_bounds(center: &GeoPoint, zoom: i64, size: &PixelSize) -> (b: GeoBounds)
    requires
        spec_rejection(*center, zoom, *size).is_none(),
    ensures
        b == spec_view_bounds(*center, zoom, *size),
        !b.spec_is_empty(),
{
    let level: u8 = zoom_level(zoom);
    let count: u64 = pow2_u64(level);
    proof {
        lemma_extent_bounds(*size, zoom);
        vstd::arithmetic::power2::lemma2_to64();
        if level < 20 {
            vstd::arithmetic::power2::lemma_pow2_strictly_increases(level as nat, 20);
        }
    }
    let divisor: i128 = 512 * (count as i128);
    let half_width: i128 = div_floor((size.width as i128) * 360 * (UNIT as i128), divisor);
    let half_height: i128 = div_floor((size.height as i128) * 180 * (UNIT as i128), divisor);
    GeoBounds::new(
        (center.lng as i128 - half_width) as i64,
        (center.lat as i128 - half_height) as i64,
        (center.lng as i128 + half_width) as i64,
        (center.lat as i128 + half_height) as i64,
    )
}

/// Brings a tile index into the grid of `count` tiles per axis.
fn clamp_index(v: i128, count: i128) -> (r: u32)
    requires
        1 <= count <= 0x10_0000,
    ensures
        r == spec_clamp_index(v as int, count as int),
        r < count,
{
    if v < 0 {
        0
    } else if v > count - 1 {
        (count - 1) as u32
    } else {
        v as u32
    }
}

/// The surface of the given size as a rectangle.
fn surface_bounds(size: &PixelSize) -> (b: PixelBounds)
    ensures
        b == spec_pixel_bounds(*size),
{
    PixelBounds::new(0, 0, (size.width as i64) * UNIT, (size.height as i64) * UNIT)
}

impl View for Viewport {
    type V = ViewportState;

    closed spec fn view(&self) -> ViewportState {
        ViewportState {
            center: self.center,
            zoom: self.zoom,
            rotation: self.rotation,
            size: self.size,
            bounds: self.bounds,
            pixel_bounds: self.pixel_bounds,
        }
    }
}

impl Viewport {
    #[verifier::type_invariant]
    spec fn inv(self) -> bool {
        self@.wf()
    }

    /// Creates a viewport with no rotation.
    ///
    /// Fails when the center is not a valid point, the zoom lies outside
    /// [0, 20] or a dimension of the size is 0, with the message of the first
    /// of these rules that is broken.
    pub fn new(center: GeoPoint, zoom: i64, size: PixelSize) -> (r: Result<Viewport, GeoArrowError>)
        ensures
            match spec_rejection(center, zoom, size) {
                Some(text) => r.is_err() && r.unwrap_err().is_validation(text),
                None => r.is_ok() && r.unwrap()@ == ViewportState::of(center, zoom, 0, size)
                    && r.unwrap()@.wf(),
            },
    {
        if !center.is_valid() {
            return Err(GeoArrowError::validation("Invalid center coordinates"));
        }
        if zoom < 0 || zoom > MAX_ZOOM {
            return Err(GeoArrowError::validation("Zoom must be between 0.0 and 20.0"));
        }
        if size.width == 0 || size.height == 0 {
            return Err(GeoArrowError::validation("Size dimensions must be greater than 0"));
        }
        let bounds: GeoBounds = derive_bounds(&center, zoom, &size);
        let pixel_bounds: PixelBounds = surface_bounds(&size);
        Ok(Viewport { center, zoom, rotation: 0, size, bounds, pixel_bounds })
    }

    /// Moves the center. An invalid point is rejected and changes nothing.
    pub fn pan(&mut self, new_center: GeoPoint) -> (r: Result<(), GeoArrowError>)
        ensures
            final(self)@.wf(),
            new_center.spec_is_valid() ==> r.is_ok() && final(self)@ == ViewportState::of(
                new_center,
                old(self)@.zoom,
                old(self)@.rotation,
                old(self)@.size,
            ),
            !new_center.spec_is_valid() ==> r.is_err() && r.unwrap_err().is_validation(
                "Invalid center coordinates"@,
            ) && final(self)@ == old(self)@,
    {
        proof {
            use_type_invariant(&*self);
        }
        if !new_center.is_valid() {
            return Err(GeoArrowError::validation("Invalid center coordinates"));
        }
        let bounds: GeoBounds = derive_bounds(&new_center, self.zoom, &self.size);
        *self = Viewport {
            center: new_center,
            zoom: self.zoom,
            rotation: self.rotation,
            size: self.size,
            bounds,
            pixel_bounds: self.pixel_bounds,
        };
        Ok(())
    }

    /// Sets the zoom. A zoom outside [0, 20] is rejected and changes nothing.
    pub fn zoom_to(&mut self, new_zoom: i64) -> (r: Result<(), GeoArrowError>)
        ensures
            final(self)@.wf(),
            0 <= new_zoom <= MAX_ZOOM ==> r.is_ok() && final(self)@ == ViewportState::of(
                old(self)@.center,
                new_zoom,
                old(self)@.rotation,
                old(self)@.size,
            ),
            !(0 <= new_zoom <= MAX_ZOOM) ==> r.is_err() && r.unwrap_err().is_validation(
                "Zoom must be between 0.0 and 20.0"@,
            ) && final(self)@ == old(self)@,
    {
        proof {
            use_type_invariant(&*self);
        }
        if new_zoom < 0 || new_zoom > MAX_ZOOM {
            return Err(GeoArrowError::validation("Zoom must be between 0.0 and 20.0"));
        }
        let bounds: GeoBounds = derive_bounds(&self.center, new_zoom, &self.size);
        *self = Viewport {
            center: self.center,
            zoom: new_zoom,
            rotation: self.rotation,
            size: self.size,
            bounds,
            pixel_bounds: self.pixel_bounds,
        };
        Ok(())
    }

    /// Sets the size of the surface. A size with a dimension of 0 is rejected
    /// and changes nothing.
    pub fn resize(&mut self, new_size: PixelSize) -> (r: Result<(), GeoArrowError>)
        ensures
            final(self)@.wf(),
            new_size.width != 0 && new_size.height != 0 ==> r.is_ok() && final(self)@
                == ViewportState::of(
                old(self)@.center,
                old(self)@.zoom,
                old(self)@.rotation,
                new_size,
            ),
            new_size.width == 0 || new_size.height == 0 ==> r.is_err()
                && r.unwrap_err().is_validation("Size dimensions must be greater than 0"@)
                && final(self)@ == old(self)@,
    {
        proof {
            use_type_invariant(&*self);
        }
        if new_size.width == 0 || new_size.height == 0 {
            return Err(GeoArrowError::validation("Size dimensions must be greater than 0"));
        }
        let bounds: GeoBounds = derive_bounds(&self.center, self.zoom, &new_size);
        let pixel_bounds: PixelBounds = surface_bounds(&new_size);
        *self = Viewport {
            center: self.center,
            zoom: self.zoom,
            rotation: self.rotation,
            size: new_size,
            bounds,
            pixel_bounds,
        };
        Ok(())
    }

    /// Stores the rotation. Every angle is accepted, and the bounds stay as
    /// they are: the window is not turned.
    pub fn rotate(&mut self, rotation: i64)
        ensures
            final(self)@.wf(),
            final(self)@ == ViewportState::of(
                old(self)@.center,
                old(self)@.zoom,
                rotation,
                old(self)@.size,
            ),
            final(self)@.bounds == old(self)@.bounds,
    {
        proof {
            use_type_invariant(&*self);
        }
        *self = Viewport {
            center: self.center,
            zoom: self.zoom,
            rotation,
            size: self.size,
            bounds: self.bounds,
            pixel_bounds: self.pixel_bounds,
        };
    }

    pub fn center(&self) -> (r: GeoPoint)
        ensures
            r == self@.center,
    {
        self.center
    }

    pub fn zoom(&self) -> (r: i64)
        ensures
            r == self@.zoom,
    {
        self.zoom
    }

    pub fn rotation(&self) -> (r: i64)
        ensures
            r == self@.rotation,
    {
        self.rotation
    }

    pub fn size(&self) -> (r: PixelSize)
        ensures
            r == self@.size,
    {
        self.size
    }

    /// The geographic bounds of the window, as derived from center, zoom and
    /// size.
    pub fn bounds(&self) -> (r: GeoBounds)
        ensures
            self@.wf(),
            r == self@.bounds,
            r == spec_view_bounds(self@.center, self@.zoom, self@.size),
            !r.spec_is_empty(),
    {
        proof {
            use_type_invariant(self);
            lemma_extent_bounds(self.size, self.zoom);
        }
        self.bounds
    }

    pub fn pixel_bounds(&self) -> (r: PixelBounds)
        ensures
            r == self@.pixel_bounds,
    {
        self.pixel_bounds
    }

    /// Places a geographic point on the surface by linear interpolation
    /// within the bounds, the vertical axis flipped.
    pub fn world_to_screen(&self, point: &GeoPoint) -> (r: ScreenPoint)
        ensures
            self@.wf(),
            r == self@.world_to_screen(*point),
    {
        proof {
            use_type_invariant(self);
        }
        crate::projection::world_to_screen(
            &self.bounds,
            self.pixel_bounds.max_x,
            self.pixel_bounds.max_y,
            point,
        )
    }

    /// The first and last column and the first and last row of the tiles
    /// that the bounds touch, and the zoom level of the grid.
    fn tile_range(&self) -> (r: (u32, u32, u32, u32, u8))
        ensures
            self@.wf(),
            r.4 == spec_zoom_level(self@.zoom),
            r.4 <= 20,
            spec_tile_range(self@.bounds, r.4 as int) == (TileRange {
                first_x: r.0 as int,
                last_x: r.1 as int,
                first_y: r.2 as int,
                last_y: r.3 as int,
            }),
            r.0 < 0x10_0000 && r.1 < 0x10_0000 && r.2 < 0x10_0000 && r.3 < 0x10_0000,
    {
        proof {
            use_type_invariant(self);
            lemma_extent_bounds(self.size, self.zoom);
            vstd::arithmetic::power2::lemma2_to64();
        }
        let z: u8 = zoom_level(self.zoom);
        let count: i128 = pow2_u64(z) as i128;
        proof {
            if z < 20 {
                vstd::arithmetic::power2::lemma_pow2_strictly_increases(z as nat, 20);
            }
        }
        let b: GeoBounds = self.bounds;
        let width: i128 = 2 * (MAX_LONGITUDE as i128);
        let height: i128 = 2 * (MAX_LATITUDE as i128);
        assert(-0x1000_0000_0000_0000 * 0x10_0000 <= (b.min_x + MAX_LONGITUDE) * count
            <= 0x1000_0000_0000_0000 * 0x10_0000 && -0x1000_0000_0000_0000 * 0x10_0000 <= (b.max_x
            + MAX_LONGITUDE) * count <= 0x1000_0000_0000_0000 * 0x10_0000
            && -0x1000_0000_0000_0000 * 0x10_0000 <= (MAX_LATITUDE - b.max_y) * count
            <= 0x1000_0000_0000_0000 * 0x10_0000 && -0x1000_0000_0000_0000 * 0x10_0000 <= (
        MAX_LATITUDE - b.min_y) * count <= 0x1000_0000_0000_0000 * 0x10_0000) by (nonlinear_arith)
            requires
                1 <= count <= 0x10_0000,
                -0x0fff_0000_0000_0000 <= b.min_x <= 0x0fff_0000_0000_0000,
                -0x0fff_0000_0000_0000 <= b.max_x <= 0x0fff_0000_0000_0000,
                -0x0fff_0000_0000_0000 <= b.min_y <= 0x0fff_0000_0000_0000,
                -0x0fff_0000_0000_0000 <= b.max_y <= 0x0fff_0000_0000_0000,
                MAX_LONGITUDE == 24_159_191_040,
                MAX_LATITUDE == 12_079_595_520,
        ;
        let first_x: u32 = clamp_index(
            div_floor((b.min_x as i128 + MAX_LONGITUDE as i128) * count, width),
            count,
        );
        let last_x: u32 = clamp_index(
            div_ceil((b.max_x as i128 + MAX_LONGITUDE as i128) * count, width),
            count,
        );
        let first_y: u32 = clamp_index(
            div_floor((MAX_LATITUDE as i128 - b.max_y as i128) * count, height),
            count,
        );
        let last_y: u32 = clamp_index(
            div_ceil((MAX_LATITUDE as i128 - b.min_y as i128) * count, height),
            count,
        );
        (first_x, last_x, first_y, last_y, z)
    }

    /// Tells whether the window needs the tile: whether the tile is of the
    /// whole zoom level of the window and lies within the columns and rows
    /// that the bounds touch.
    pub fn requires_tile(&self, x: u32, y: u32, z: u8) -> (r: bool)
        ensures
            self@.wf(),
            r == self@.required_tiles().contains((x, y, z)),
    {
        let (first_x, last_x, first_y, last_y, level) = self.tile_range();
        proof {
            lemma_tiles_of_range(
                spec_tile_range(self@.bounds, level as int),
                level as int,
                (x, y, z),
            );
        }
        z == level && first_x <= x && x <= last_x && first_y <= y && y <= last_y
    }

    /// The tiles needed to cover the window at the whole part of its zoom
    /// level: every tile from the first to the last column and from the
    /// first to the last row that the bounds touch, column by column.
    pub fn get_required_tiles(&self) -> (tiles: Vec<(u32, u32, u8)>)
        ensures
            self@.wf(),
            tiles@ == self@.required_tiles(),
    {
        let (first_x, last_x, first_y, last_y, z) = self.tile_range();
        let ghost range = spec_tile_range(self@.bounds, z as int);
        let mut tiles: Vec<(u32, u32, u8)> = Vec::new();
        if first_x > last_x || first_y > last_y {
            return tiles;
        }
        let ghost rows: int = last_y - first_y + 1;
        let ghost want = spec_tiles_of(range, z as int);
        let mut x: u32 = first_x;
        while x <= last_x
            invariant
                first_x <= x <= last_x + 1,
                last_x < 0x10_0000,
                first_y <= last_y < 0x10_0000,
                rows == last_y - first_y + 1,
                want == spec_tiles_of(range, z as int),
                range.first_x == first_x && range.last_x == last_x && range.first_y == first_y
                    && range.last_y == last_y,
                tiles@.len() == (x - first_x) * rows,
                forall|i: int| 0 <= i < tiles@.len() ==> tiles@[i] == want[i],
            decreases last_x + 1 - x,
        {
            let mut y: u32 = first_y;
            while y <= last_y
                invariant
                    first_x <= x <= last_x,
                    first_y <= y <= last_y + 1,
                    last_y < 0x10_0000,
                    rows == last_y - first_y + 1,
                    want == spec_tiles_of(range, z as int),
                    range.first_x == first_x && range.last_x == last_x && range.first_y
                        == first_y && range.last_y == last_y,
                    tiles@.len() == (x - first_x) * rows + (y - first_y),
                    forall|i: int| 0 <= i < tiles@.len() ==> tiles@[i] == want[i],
                decreases last_y + 1 - y,
            {
                proof {
                    let i: int = (x - first_x) * rows + (y - first_y);
                    assert(i == (x - first_x) * rows + (y - first_y));
                    vstd::arithmetic::div_mod::lemma_fundamental_div_mod_converse(
                        i,
                        rows,
                        x - first_x,
                        y - first_y,
                    );
                    assert(i < (last_x - first_x + 1) * rows) by (nonlinear_arith)
                        requires
                            i == (x - first_x) * rows + (y - first_y),
                            y - first_y < rows,
                            x <= last_x,
                            rows > 0,
                    ;
                    assert(want[i] == (x, y, z));
                }
                tiles.push((x, y, z));
                y += 1;
            }
            assert((x - first_x) * rows + rows == (x + 1 - first_x) * rows) by (nonlinear_arith);
            x += 1;
        }
        assert(tiles@ =~= want);
        tiles
    }

    /// Finds the geographic point shown at a place of the surface, `None`
    /// where one of its ordinates lies outside the number range.
    pub fn screen_to_world(&self, x: i64, y: i64) -> (r: Option<GeoPoint>)
        ensures
            self@.wf(),
            r == self@.screen_to_world(x, y),
    {
        proof {
            use_type_invariant(self);
        }
        if self.bounds.is_empty() {
            return Some(self.center);
        }
        crate::projection::screen_to_world(
            &self.bounds,
            self.pixel_bounds.max_x,
            self.pixel_bounds.max_y,
            x,
            y,
        )
    }
}

} // verus!

//! The linear map between a geographic rectangle and a drawing surface.
//!
//! A point is placed on the surface by linear interpolation within the
//! rectangle, with the vertical axis flipped: the surface has its origin at
//! the top left, the rectangle at the bottom left. This is a flat model of
//! the world, not a spherical projection. Quotients are rounded down.

use vstd::prelude::*;
use crate::fixed::div_floor;
use crate::fixed::narrow;
use crate::fixed::narrow_i128;
use crate::model::bounds::GeoBounds;
use crate::model::point::GeoPoint;

verus! {

/// A position on the surface. An ordinate is `None` where the exact result
/// lies outside the range of the fixed-point numbers.
pub type ScreenPoint = (Option<i64>, Option<i64>);

/// The horizontal place of a longitude on a surface of the given width.
pub open spec fn spec_screen_x(b: GeoBounds, width: i64, lng: i64) -> Option<i64> {
    narrow(((lng - b.min_x) * width) / (b.max_x - b.min_x))
}

/// The vertical place of a latitude on a surface of the given height,
/// counted from the top.
pub open spec fn spec_screen_y(b: GeoBounds, height: i64, lat: i64) -> Option<i64> {
    narrow(height - ((lat - b.min_y) * height) / (b.max_y - b.min_y))
}

/// The place of a point on the surface; the origin where the rectangle is
/// empty.
pub open spec fn spec_world_to_screen(b: GeoBounds, width: i64, height: i64, p: GeoPoint)
    -> ScreenPoint {
    if b.spec_is_empty() {
        (Some(0i64), Some(0i64))
    } else {
        (spec_screen_x(b, width, p.lng), spec_screen_y(b, height, p.lat))
    }
}

/// The longitude shown at a horizontal place of the surface.
pub open spec fn spec_world_x(b: GeoBounds, width: i64, x: i64) -> Option<i64> {
    narrow(b.min_x + (x * (b.max_x - b.min_x)) / (width as int))
}

/// The latitude shown at a vertical place of the surface.
pub open spec fn spec_world_y(b: GeoBounds, height: i64, y: i64) -> Option<i64> {
    narrow(b.min_y + ((height - y) * (b.max_y - b.min_y)) / (height as int))
}

/// The point shown at a place of the surface: `Some` where the surface has a
/// width and a height and both ordinates of the point are in range.
pub open spec fn spec_screen_to_world(b: GeoBounds, width: i64, height: i64, x: i64, y: i64)
    -> Option<GeoPoint> {
    if width <= 0 || height <= 0 {
        None
    } else {
        match (spec_world_x(b, width, x), spec_world_y(b, height, y)) {
            (Some(lng), Some(lat)) => Some(GeoPoint { lat, lng }),
            _ => None,
        }
    }
}

/// `a * b / d`, rounded down.
fn scale(a: i128, b: i64, d: i128) -> (q: i128)
    requires
        -0x1_0000_0000_0000_0000 < a < 0x1_0000_0000_0000_0000,
        d > 0,
    ensures
        q == (a * b) / (d as int),
{
    assert(-0x8000_0000_0000_0000_0000_0000_0000_0000 < a * b
        < 0x8000_0000_0000_0000_0000_0000_0000_0000) by (nonlinear_arith)
        requires
            -0x1_0000_0000_0000_0000 < a < 0x1_0000_0000_0000_0000,
            -0x8000_0000_0000_0000 <= b < 0x8000_0000_0000_0000,
    ;
    div_floor(a * (b as i128), d)
}

/// `a + q` where it is in range.
fn offset(a: i64, q: i128) -> (r: Option<i64>)
    ensures
        r == narrow(a + q),
{
    if q < -0x1_0000_0000_0000_0000 || q > 0x1_0000_0000_0000_0000 {
        None
    } else {
        narrow_i128(a as i128 + q)
    }
}

/// `a - q` where it is in range.
fn backset(a: i64, q: i128) -> (r: Option<i64>)
    ensures
        r == narrow(a - q),
{
    if q < -0x1_0000_0000_0000_0000 || q > 0x1_0000_0000_0000_0000 {
        None
    } else {
        narrow_i128(a as i128 - q)
    }
}

/// Places a point on a surface of the given size that shows the rectangle
/// `b`. Where `b` is empty every point is placed at the origin.
pub fn world_to_screen(b: &GeoBounds, width: i64, height: i64, p: &GeoPoint) -> (r: ScreenPoint)
    ensures
        r == spec_world_to_screen(*b, width, height, *p),
{
    if b.is_empty() {
        return (Some(0), Some(0));
    }
    let span_x: i128 = b.max_x as i128 - b.min_x as i128;
    let span_y: i128 = b.max_y as i128 - b.min_y as i128;
    let qx: i128 = scale(p.lng as i128 - b.min_x as i128, width, span_x);
    let qy: i128 = scale(p.lat as i128 - b.min_y as i128, height, span_y);
    (narrow_i128(qx), backset(height, qy))
}

/// `base + a * b / d` with the quotient rounded down, where it is in range.
fn interpolate(base: i64, a: i128, b: i128, d: i64) -> (r: Option<i64>)
    requires
        d > 0,
    ensures
        r == narrow(base + (a * b) / (d as int)),
{
    match a.checked_mul(b) {
        Some(product) => offset(base, div_floor(product, d as i128)),
        None => {
            proof {
                // A product beyond 127 bits leaves a quotient beyond 64 bits.
                let p: int = a * b;
                let q: int = p / (d as int);
                let r: int = p % (d as int);
                vstd::arithmetic::div_mod::lemma_fundamental_div_mod(p, d as int);
                if p > 0 {
                    assert(q >= 0x1_0000_0000_0000_0000) by (nonlinear_arith)
                        requires
                            p == d * q + r,
                            0 <= r < d,
                            0 < d < 0x8000_0000_0000_0000,
                            p >= 0x8000_0000_0000_0000_0000_0000_0000_0000,
                    ;
                } else {
                    assert(q < -0x1_0000_0000_0000_0000) by (nonlinear_arith)
                        requires
                            p == d * q + r,
                            0 <= r < d,
                            0 < d < 0x8000_0000_0000_0000,
                            p < -0x8000_0000_0000_0000_0000_0000_0000_0000,
                    ;
                }
            }
            None
        },
    }
}

/// Finds the point shown at a place of a surface of the given size that
/// shows the rectangle `b`. There is none on a surface without width or
/// height.
pub fn screen_to_world(b: &GeoBounds, width: i64, height: i64, x: i64, y: i64) -> (r: Option<
    GeoPoint,
>)
    ensures
        r == spec_screen_to_world(*b, width, height, x, y),
{
    if width <= 0 || height <= 0 {
        return None;
    }
    let span_x: i128 = b.max_x as i128 - b.min_x as i128;
    let span_y: i128 = b.max_y as i128 - b.min_y as i128;
    let up: i128 = height as i128 - y as i128;
    let lng: Option<i64> = interpolate(b.min_x, x as i128, span_x, width);
    let lat: Option<i64> = interpolate(b.min_y, up, span_y, height);
    match (lng, lat) {
        (Some(lng), Some(lat)) => Some(GeoPoint::new(lat, lng)),
        _ => None,
    }
}

/// Scaling a value from one extent to another and back, rounding down both
/// times, never gains and loses less than one unit plus one unit of the
/// other extent.
pub proof fn lemma_there_and_back(v: int, from: int, to: int)
    requires
        from > 0,
        to > 0,
        0 <= v <= from,
    ensures
        0 <= (v * to) / from <= to,
        0 <= (((v * to) / from) * from) / to <= v,
        (v - (((v * to) / from) * from) / to - 1) * to < from,
{
    let q = (v * to) / from;
    let r1 = (v * to) % from;
    vstd::arithmetic::div_mod::lemma_fundamental_div_mod(v * to, from);
    let back = (q * from) / to;
    let r2 = (q * from) % to;
    vstd::arithmetic::div_mod::lemma_fundamental_div_mod(q * from, to);
    assert(0 <= q <= to) by (nonlinear_arith)
        requires
            v * to == from * q + r1,
            0 <= r1 < from,
            0 <= v <= from,
            to > 0,
    ;
    assert(0 <= back <= v) by (nonlinear_arith)
        requires
            v * to == from * q + r1,
            q * from == to * back + r2,
            0 <= r1 < from,
            0 <= r2 < to,
            0 <= q,
            0 <= v,
    ;
    assert((v - back - 1) * to < from) by (nonlinear_arith)
        requires
            v * to == from * q + r1,
            q * from == to * back + r2,
            0 <= r1 < from,
            0 <= r2 < to,
    ;
}

/// A place on the surface, taken to the world and back, comes back within
/// the surface at most where it started (to the left of it, and below it),
/// and less than one unit plus the size of one geographic unit away.
pub proof fn lemma_screen_round_trip(b: GeoBounds, width: i64, height: i64, x: i64, y: i64)
    requires
        !b.spec_is_empty(),
        width > 0,
        height > 0,
        0 <= x <= width,
        0 <= y <= height,
    ensures
        spec_screen_to_world(b, width, height, x, y).is_some(),
        ({
            let p = spec_screen_to_world(b, width, height, x, y).unwrap();
            let back = spec_world_to_screen(b, width, height, p);
            &&& b.spec_contains(p.lng, p.lat)
            &&& back.0.is_some() && back.1.is_some()
            &&& 0 <= x - back.0.unwrap()
            &&& (x - back.0.unwrap() - 1) * (b.max_x - b.min_x) < width
            &&& 0 <= back.1.unwrap() - y
            &&& (back.1.unwrap() - y - 1) * (b.max_y - b.min_y) < height
        }),
{
    lemma_there_and_back(x as int, width as int, b.max_x - b.min_x);
    lemma_there_and_back(height - y, height as int, b.max_y - b.min_y);
}

/// A point of the rectangle, taken to the surface and back, comes back
/// within the rectangle at most where it started (to the west and south of
/// it), and less than one unit plus the size of one surface unit away.
pub proof fn lemma_world_round_trip(b: GeoBounds, width: i64, height: i64, p: GeoPoint)
    requires
        !b.spec_is_empty(),
        width > 0,
        height > 0,
        b.spec_contains(p.lng, p.lat),
    ensures
        spec_world_to_screen(b, width, height, p).0.is_some(),
        spec_world_to_screen(b, width, height, p).1.is_some(),
        ({
            let x = spec_world_to_screen(b, width, height, p).0.unwrap();
            let y = spec_world_to_screen(b, width, height, p).1.unwrap();
            let back = spec_screen_to_world(b, width, height, x, y);
            &&& 0 <= x <= width
            &&& 0 <= y <= height
            &&& back.is_some()
            &&& 0 <= p.lng - back.unwrap().lng
            &&& (p.lng - back.unwrap().lng - 1) * width < b.max_x - b.min_x
            &&& 0 <= p.lat - back.unwrap().lat
            &&& (p.lat - back.unwrap().lat - 1) * height < b.max_y - b.min_y
        }),
{
    lemma_there_and_back(p.lng - b.min_x, b.max_x - b.min_x, width as int);
    lemma_there_and_back(p.lat - b.min_y, b.max_y - b.min_y, height as int);
}

} // verus!

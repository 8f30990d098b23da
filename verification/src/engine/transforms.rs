//! Transforms of coordinates and bounds: zoom, pan, expansion, fitting.
//!
//! Every function here is a function of its arguments alone. A result is
//! `None` where it lies outside the range of the fixed-point numbers.
//! Quotients are rounded down.

use vstd::prelude::*;
use vstd::arithmetic::power2::pow2;
use crate::fixed::div_floor;
use crate::fixed::narrow;
use crate::fixed::narrow_i128;
use crate::fixed::pow2_wide;
use crate::fixed::UNIT;
use crate::model::bounds::GeoBounds;
use crate::model::geometry::cover;
use crate::model::geometry::no_bounds;
use crate::model::point::GeoPoint;
use crate::projection::spec_screen_to_world;

verus! {

/// A value times two to the power of the zoom level.
pub open spec fn spec_zoomed(v: i64, zoom_level: u8) -> Option<i64> {
    narrow(v * pow2(zoom_level as nat))
}

/// Scales one value by two to the power of the zoom level.
fn zoomed(v: i64, zoom_level: u8) -> (r: Option<i64>)
    ensures
        r == spec_zoomed(v, zoom_level),
{
    if v == 0 {
        assert(0 * pow2(zoom_level as nat) == 0) by (nonlinear_arith);
        return Some(0);
    }
    if zoom_level >= 64 {
        proof {
            vstd::arithmetic::power2::lemma2_to64();
            if zoom_level > 64 {
                vstd::arithmetic::power2::lemma_pow2_strictly_increases(64, zoom_level as nat);
            }
            let p = pow2(zoom_level as nat) as int;
            assert(v * p >= 0x1_0000_0000_0000_0000 || v * p <= -0x1_0000_0000_0000_0000)
                by (nonlinear_arith)
                requires
                    v != 0,
                    p >= 0x1_0000_0000_0000_0000,
            ;
        }
        return None;
    }
    let factor: i128 = pow2_wide(zoom_level);
    proof {
        vstd::arithmetic::power2::lemma2_to64();
        vstd::arithmetic::power2::lemma_pow2_strictly_increases(zoom_level as nat, 64);
    }
    assert(-0x8000_0000_0000_0000_0000_0000_0000_0000 < v * factor
        < 0x8000_0000_0000_0000_0000_0000_0000_0000) by (nonlinear_arith)
        requires
            -0x8000_0000_0000_0000 <= v < 0x8000_0000_0000_0000,
            1 <= factor < 0x1_0000_0000_0000_0000,
    ;
    narrow_i128((v as i128) * factor)
}

/// Scales a position by two to the power of the zoom level.
pub fn apply_zoom_transform(x: i64, y: i64, zoom_level: u8) -> (r: (Option<i64>, Option<i64>))
    ensures
        r == (spec_zoomed(x, zoom_level), spec_zoomed(y, zoom_level)),
{
    (zoomed(x, zoom_level), zoomed(y, zoom_level))
}

/// Moves a position by an offset.
pub fn apply_pan_transform(x: i64, y: i64, dx: i64, dy: i64) -> (r: (Option<i64>, Option<i64>))
    ensures
        r == (narrow(x + dx), narrow(y + dy)),
{
    (narrow_i128(x as i128 + dx as i128), narrow_i128(y as i128 + dy as i128))
}

/// The four sides as bounds, where each of them is in range.
pub open spec fn spec_bounds_of(min_x: int, min_y: int, max_x: int, max_y: int) -> Option<GeoBounds> {
    match (narrow(min_x), narrow(min_y), narrow(max_x), narrow(max_y)) {
        (Some(a), Some(b), Some(c), Some(d)) => Some(
            GeoBounds { min_x: a, min_y: b, max_x: c, max_y: d },
        ),
        _ => None,
    }
}

/// Builds bounds from four sides that were computed in a wider type.
fn bounds_of(min_x: i128, min_y: i128, max_x: i128, max_y: i128) -> (r: Option<GeoBounds>)
    ensures
        r == spec_bounds_of(min_x as int, min_y as int, max_x as int, max_y as int),
{
    match (narrow_i128(min_x), narrow_i128(min_y), narrow_i128(max_x), narrow_i128(max_y)) {
        (Some(a), Some(b), Some(c), Some(d)) => Some(GeoBounds::new(a, b, c, d)),
        _ => None,
    }
}

/// The bounds of a window of the given size around a center, where one
/// unit of the size covers 2^-level units of the world.
pub open spec fn spec_viewport_bounds(center: (i64, i64), viewport_size: (i64, i64), zoom_level: u8)
    -> Option<GeoBounds> {
    let half_width = viewport_size.0 as int / (2 * pow2(zoom_level as nat) as int);
    let half_height = viewport_size.1 as int / (2 * pow2(zoom_level as nat) as int);
    spec_bounds_of(
        center.0 - half_width,
        center.1 - half_height,
        center.0 + half_width,
        center.1 + half_height,
    )
}

/// Half of `extent / 2^level`, rounded down.
fn half_scaled(extent: i64, zoom_level: u8) -> (r: i128)
    ensures
        r == extent as int / (2 * pow2(zoom_level as nat) as int),
        -0x8000_0000_0000_0000 <= r <= 0x8000_0000_0000_0000,
{
    proof {
        vstd::arithmetic::power2::lemma_pow2_pos(zoom_level as nat);
        crate::fixed::lemma_quotient_bound(extent as int, 2 * pow2(zoom_level as nat) as int);
    }
    if zoom_level >= 63 {
        proof {
            // The divisor exceeds every extent: the quotient is 0 or -1.
            vstd::arithmetic::power2::lemma2_to64_rest();
            if zoom_level > 63 {
                vstd::arithmetic::power2::lemma_pow2_strictly_increases(63, zoom_level as nat);
            }
            let d: int = 2 * pow2(zoom_level as nat) as int;
            let q: int = extent as int / d;
            let m: int = extent as int % d;
            vstd::arithmetic::div_mod::lemma_fundamental_div_mod(extent as int, d);
            assert(q == (if extent >= 0 {
                0int
            } else {
                -1int
            })) by (nonlinear_arith)
                requires
                    extent as int == d * q + m,
                    0 <= m < d,
                    d >= 0x1_0000_0000_0000_0000,
                    -0x8000_0000_0000_0000 <= extent < 0x8000_0000_0000_0000,
            ;
        }
        if extent >= 0 {
            0
        } else {
            -1
        }
    } else {
        let divisor: i128 = 2 * pow2_wide(zoom_level);
        div_floor(extent as i128, divisor)
    }
}

/// The bounds of a window of the given size around a center at a zoom
/// level.
pub fn calculate_viewport_bounds(center: (i64, i64), viewport_size: (i64, i64), zoom_level: u8) -> (r:
    Option<GeoBounds>)
    ensures
        r == spec_viewport_bounds(center, viewport_size, zoom_level),
{
    let half_width: i128 = half_scaled(viewport_size.0, zoom_level);
    let half_height: i128 = half_scaled(viewport_size.1, zoom_level);
    bounds_of(
        center.0 as i128 - half_width,
        center.1 as i128 - half_height,
        center.0 as i128 + half_width,
        center.1 as i128 + half_height,
    )
}

/// The bounds grown on every side by half of `factor` times their extent.
pub open spec fn spec_expand_bounds(b: GeoBounds, factor: i64) -> Option<GeoBounds> {
    let expand_x = ((b.max_x - b.min_x) * factor) / (2 * UNIT);
    let expand_y = ((b.max_y - b.min_y) * factor) / (2 * UNIT);
    spec_bounds_of(b.min_x - expand_x, b.min_y - expand_y, b.max_x + expand_x, b.max_y + expand_y)
}

/// `extent * factor / (2 * UNIT)` rounded down: half of the fixed-point
/// product.
fn half_product(extent: i128, factor: i64) -> (r: i128)
    requires
        -0x1_0000_0000_0000_0000 < extent < 0x1_0000_0000_0000_0000,
    ensures
        r == (extent * factor) / (2 * UNIT),
        -0x8_0000_0000_0000_0000_0000_0000 <= r <= 0x8_0000_0000_0000_0000_0000_0000,
{
    assert(-0x8000_0000_0000_0000_0000_0000_0000_0000 < extent * factor
        < 0x8000_0000_0000_0000_0000_0000_0000_0000) by (nonlinear_arith)
        requires
            -0x1_0000_0000_0000_0000 < extent < 0x1_0000_0000_0000_0000,
            -0x8000_0000_0000_0000 <= factor < 0x8000_0000_0000_0000,
    ;
    proof {
        crate::fixed::lemma_quotient_bound(extent * factor, 2 * UNIT);
        vstd::arithmetic::div_mod::lemma_div_is_ordered(
            extent * factor,
            0x8000_0000_0000_0000_0000_0000_0000_0000,
            2 * UNIT,
        );
        vstd::arithmetic::div_mod::lemma_div_is_ordered(
            -0x8000_0000_0000_0000_0000_0000_0000_0000,
            extent * factor,
            2 * UNIT,
        );
        assert(0x8000_0000_0000_0000_0000_0000_0000_0000int / 268_435_456 == 0x8_0000_0000_0000_0000_0000_0000);
        assert((-0x8000_0000_0000_0000_0000_0000_0000_0000int) / 268_435_456 == -0x8_0000_0000_0000_0000_0000_0000);
    }
    div_floor(extent * (factor as i128), 2 * (UNIT as i128))
}

/// Grows bounds on every side by half of `factor` times their extent; a
/// negative factor shrinks them.
pub fn expand_bounds(bounds: &GeoBounds, factor: i64) -> (r: Option<GeoBounds>)
    ensures
        r == spec_expand_bounds(*bounds, factor),
{
    let width: i128 = bounds.max_x as i128 - bounds.min_x as i128;
    let height: i128 = bounds.max_y as i128 - bounds.min_y as i128;
    let expand_x: i128 = half_product(width, factor);
    let expand_y: i128 = half_product(height, factor);
    bounds_of(
        bounds.min_x as i128 - expand_x,
        bounds.min_y as i128 - expand_y,
        bounds.max_x as i128 + expand_x,
        bounds.max_y as i128 + expand_y,
    )
}

/// The middle of the bounds, each ordinate rounded down.
pub fn bounds_center(bounds: &GeoBounds) -> (c: (i64, i64))
    ensures
        c.0 == (bounds.min_x + bounds.max_x) / 2,
        c.1 == (bounds.min_y + bounds.max_y) / 2,
{
    let x: i128 = div_floor(bounds.min_x as i128 + bounds.max_x as i128, 2);
    let y: i128 = div_floor(bounds.min_y as i128 + bounds.max_y as i128, 2);
    (x as i64, y as i64)
}

/// The width and the height of the bounds.
pub fn bounds_size(bounds: &GeoBounds) -> (s: (Option<i64>, Option<i64>))
    ensures
        s == (narrow(bounds.max_x - bounds.min_x), narrow(bounds.max_y - bounds.min_y)),
{
    (
        narrow_i128(bounds.max_x as i128 - bounds.min_x as i128),
        narrow_i128(bounds.max_y as i128 - bounds.min_y as i128),
    )
}

/// The position shown at a place of a surface of the given size that
/// shows the bounds, longitude first.
pub fn screen_to_world(screen_pos: (i64, i64), canvas_size: (i64, i64), bounds: &GeoBounds) -> (r:
    Option<(i64, i64)>)
    ensures
        match spec_screen_to_world(
            *bounds,
            canvas_size.0,
            canvas_size.1,
            screen_pos.0,
            screen_pos.1,
        ) {
            Some(p) => r == Some((p.lng, p.lat)),
            None => r.is_none(),
        },
{
    match crate::projection::screen_to_world(
        bounds,
        canvas_size.0,
        canvas_size.1,
        screen_pos.0,
        screen_pos.1,
    ) {
        Some(p) => Some((p.lng, p.lat)),
        None => None,
    }
}

/// The positions of a list as points: x as the longitude, y as the
/// latitude.
pub open spec fn spec_points_of(coordinates: Seq<(i64, i64)>) -> Seq<GeoPoint> {
    Seq::new(coordinates.len(), |i: int| GeoPoint { lat: coordinates[i].1, lng: coordinates[i].0 })
}

/// The smallest bounds that hold every position of the list; `None` for an
/// empty list.
pub fn calculate_bounds_from_coordinates(coordinates: &Vec<(i64, i64)>) -> (r: Option<GeoBounds>)
    ensures
        coordinates@.len() == 0 ==> r.is_none(),
        coordinates@.len() > 0 ==> r == Some(cover(no_bounds(), spec_points_of(coordinates@))),
{
    if coordinates.len() == 0 {
        return None;
    }
    let ghost points = spec_points_of(coordinates@);
    let mut b: GeoBounds = GeoBounds::new(i64::MAX, i64::MAX, i64::MIN, i64::MIN);
    let mut i: usize = 0;
    while i < coordinates.len()
        invariant
            i <= coordinates.len(),
            points == spec_points_of(coordinates@),
            b == cover(no_bounds(), points.take(i as int)),
        decreases coordinates.len() - i,
    {
        let (x, y) = coordinates[i];
        proof {
            let next = points.take(i + 1);
            assert(next.drop_last() =~= points.take(i as int));
            assert(next.last() == (GeoPoint { lat: y, lng: x }));
        }
        b = GeoBounds {
            min_x: if x < b.min_x { x } else { b.min_x },
            min_y: if y < b.min_y { y } else { b.min_y },
            max_x: if x > b.max_x { x } else { b.max_x },
            max_y: if y > b.max_y { y } else { b.max_y },
        };
        i += 1;
    }
    assert(points.take(i as int) =~= points);
    Some(b)
}

/// The bounds grown along one axis until their width is `target` times
/// their height: upwards and downwards by the same amount where they are
/// too wide, to the left and to the right where they are too tall. `None`
/// for bounds without width or height and for a ratio that is not
/// positive.
pub open spec fn spec_preserve_aspect_ratio(b: GeoBounds, target: i64) -> Option<GeoBounds> {
    let width = b.max_x - b.min_x;
    let height = b.max_y - b.min_y;
    if width <= 0 || height <= 0 || target <= 0 {
        None
    } else if width * UNIT > target * height {
        let grow = ((width * UNIT) / (target as int) - height) / 2;
        spec_bounds_of(b.min_x as int, b.min_y - grow, b.max_x as int, b.max_y + grow)
    } else {
        let grow = ((height * target) / (UNIT as int) - width) / 2;
        spec_bounds_of(b.min_x - grow, b.min_y as int, b.max_x + grow, b.max_y as int)
    }
}

/// Grows bounds along one axis to the aspect ratio `target`, width by
/// height.
pub fn preserve_aspect_ratio(bounds: &GeoBounds, target_aspect_ratio: i64) -> (r: Option<GeoBounds>)
    ensures
        r == spec_preserve_aspect_ratio(*bounds, target_aspect_ratio),
{
    let width: i128 = bounds.max_x as i128 - bounds.min_x as i128;
    let height: i128 = bounds.max_y as i128 - bounds.min_y as i128;
    let target: i128 = target_aspect_ratio as i128;
    if width <= 0 || height <= 0 || target <= 0 {
        return None;
    }
    assert(0 < width * UNIT < 0x1_0000_0000_0000_0000 * UNIT && 0 < target * height
        < 0x8000_0000_0000_0000 * 0x1_0000_0000_0000_0000 && target * height == height * target)
        by (nonlinear_arith)
        requires
            0 < width < 0x1_0000_0000_0000_0000,
            0 < height < 0x1_0000_0000_0000_0000,
            0 < target < 0x8000_0000_0000_0000,
            UNIT == 134_217_728,
    ;
    if width * (UNIT as i128) > target * height {
        let fitted: i128 = div_floor(width * (UNIT as i128), target);
        proof {
            crate::fixed::lemma_quotient_bound(width * UNIT, target as int);
        }
        let grow: i128 = div_floor(fitted - height, 2);
        bounds_of(
            bounds.min_x as i128,
            bounds.min_y as i128 - grow,
            bounds.max_x as i128,
            bounds.max_y as i128 + grow,
        )
    } else {
        let fitted: i128 = div_floor(height * target, UNIT as i128);
        proof {
            crate::fixed::lemma_quotient_bound(height * target, UNIT as int);
        }
        let grow: i128 = div_floor(fitted - width, 2);
        bounds_of(
            bounds.min_x as i128 - grow,
            bounds.min_y as i128,
            bounds.max_x as i128 + grow,
            bounds.max_y as i128,
        )
    }
}

/// The data, enlarged 2^level times, still fits into the viewport.
pub open spec fn spec_fits(data: GeoBounds, viewport_size: (i64, i64), level: int) -> bool {
    &&& pow2(level as nat) * (data.max_x - data.min_x) <= viewport_size.0
    &&& pow2(level as nat) * (data.max_y - data.min_y) <= viewport_size.1
}

/// The deepest zoom level from `level` down to 2 at which the data fits
/// into the viewport, and 1 where there is none.
pub open spec fn spec_fit_level(data: GeoBounds, viewport_size: (i64, i64), level: int) -> int
    decreases level,
{
    if level <= 1 {
        1
    } else if spec_fits(data, viewport_size, level) {
        level
    } else {
        spec_fit_level(data, viewport_size, level - 1)
    }
}

/// The fitting level is the deepest level from `level` down to 2 at which
/// the data fits: the data fits at it unless it is 1, and at no deeper
/// level up to `level`.
pub proof fn lemma_fit_level(data: GeoBounds, viewport_size: (i64, i64), level: int)
    requires
        level >= 1,
    ensures
        1 <= spec_fit_level(data, viewport_size, level) <= level,
        spec_fit_level(data, viewport_size, level) >= 2 ==> spec_fits(
            data,
            viewport_size,
            spec_fit_level(data, viewport_size, level),
        ),
        forall|k: int|
            spec_fit_level(data, viewport_size, level) < k <= level ==> !spec_fits(
                data,
                viewport_size,
                k,
            ),
    decreases level,
{
    if level > 1 && !spec_fits(data, viewport_size, level) {
        lemma_fit_level(data, viewport_size, level - 1);
    }
}

/// The zoom level and the center at which a viewport shows the data: the
/// deepest level from 20 down to 2 at which the data, enlarged 2^level
/// times, fits into the viewport, or level 1; and the middle of the data.
pub fn fit_bounds_to_viewport(data_bounds: &GeoBounds, viewport_size: (i64, i64)) -> (r: (
    u8,
    (i64, i64),
))
    ensures
        r.0 == spec_fit_level(*data_bounds, viewport_size, 20),
        1 <= r.0 <= 20,
        r.1.0 == (data_bounds.min_x + data_bounds.max_x) / 2,
        r.1.1 == (data_bounds.min_y + data_bounds.max_y) / 2,
{
    let width: i128 = data_bounds.max_x as i128 - data_bounds.min_x as i128;
    let height: i128 = data_bounds.max_y as i128 - data_bounds.min_y as i128;
    let center: (i64, i64) = bounds_center(data_bounds);
    let mut level: u8 = 20;
    while level > 1
        invariant
            1 <= level <= 20,
            width == data_bounds.max_x - data_bounds.min_x,
            height == data_bounds.max_y - data_bounds.min_y,
            center.0 == (data_bounds.min_x + data_bounds.max_x) / 2,
            center.1 == (data_bounds.min_y + data_bounds.max_y) / 2,
            spec_fit_level(*data_bounds, viewport_size, 20) == spec_fit_level(
                *data_bounds,
                viewport_size,
                level as int,
            ),
        decreases level,
    {
        let factor: i128 = pow2_wide(level);
        proof {
            vstd::arithmetic::power2::lemma2_to64();
            if level < 20 {
                vstd::arithmetic::power2::lemma_pow2_strictly_increases(level as nat, 20);
            }
            assert(-0x1_0000_0000_0000_0000 * 0x10_0000 < factor * width < 0x1_0000_0000_0000_0000
                * 0x10_0000 && -0x1_0000_0000_0000_0000 * 0x10_0000 < factor * height
                < 0x1_0000_0000_0000_0000 * 0x10_0000) by (nonlinear_arith)
                requires
                    1 <= factor <= 0x10_0000,
                    -0x1_0000_0000_0000_0000 < width < 0x1_0000_0000_0000_0000,
                    -0x1_0000_0000_0000_0000 < height < 0x1_0000_0000_0000_0000,
            ;
        }
        if factor * width <= viewport_size.0 as i128 && factor * height <= viewport_size.1 as i128 {
            return (level, center);
        }
        level -= 1;
    }
    (1, center)
}

} // verus!

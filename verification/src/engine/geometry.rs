//! The coordinate transform pipeline: from the positions of a source
//! geometry to places on the surface of a render context.
//!
//! Every function here is a function of its arguments alone.

use vstd::prelude::*;
use crate::engine::ContextModel;
use crate::engine::RenderContext;
use crate::geodata::Geometry;
use crate::geodata::Position;
use crate::projection::spec_screen_x;
use crate::projection::spec_screen_y;
use crate::projection::ScreenPoint;

verus! {

/// The place of a position on the surface. An ordinate that is missing in
/// the position is missing in the place; with empty bounds every position
/// is placed at the origin.
pub open spec fn spec_transform_position(context: ContextModel, p: Position) -> ScreenPoint {
    if context.viewport_bounds.spec_is_empty() {
        (Some(0i64), Some(0i64))
    } else {
        (
            match p.x {
                Some(lng) => spec_screen_x(context.viewport_bounds, context.canvas_size.0, lng),
                None => None,
            },
            match p.y {
                Some(lat) => spec_screen_y(context.viewport_bounds, context.canvas_size.1, lat),
                None => None,
            },
        )
    }
}

/// The places of a list of positions, in order.
pub open spec fn spec_transform_coordinates(context: ContextModel, ps: Seq<Position>) -> Seq<
    ScreenPoint,
> {
    Seq::new(ps.len(), |i: int| spec_transform_position(context, ps[i]))
}

/// A place is finite when both its ordinates are numbers.
pub open spec fn spec_is_finite(c: ScreenPoint) -> bool {
    c.0.is_some() && c.1.is_some()
}

/// Every place of the list is finite.
pub open spec fn spec_validate_coordinates(coords: Seq<ScreenPoint>) -> bool {
    forall|i: int| 0 <= i < coords.len() ==> spec_is_finite(#[trigger] coords[i])
}

/// The places of a list of finite places as pairs of numbers.
pub open spec fn spec_finite_coordinates(coords: Seq<ScreenPoint>) -> Seq<(i64, i64)> {
    Seq::new(coords.len(), |i: int| (coords[i].0.unwrap(), coords[i].1.unwrap()))
}

/// A place lies on the surface: it is finite and within the rectangle from
/// the origin to the size of the surface, edges included.
pub open spec fn spec_on_surface(context: ContextModel, c: ScreenPoint) -> bool {
    &&& spec_is_finite(c)
    &&& 0 <= c.0.unwrap() <= context.canvas_size.0
    &&& 0 <= c.1.unwrap() <= context.canvas_size.1
}

/// Places one position on the surface of the context.
pub fn transform_position(context: &RenderContext, position: &Position) -> (r: ScreenPoint)
    ensures
        r == spec_transform_position(context@, *position),
{
    if context.viewport_bounds.is_empty() {
        return (Some(0), Some(0));
    }
    let lng: i64 = match position.x {
        Some(v) => v,
        None => 0,
    };
    let lat: i64 = match position.y {
        Some(v) => v,
        None => 0,
    };
    let placed: ScreenPoint = context.world_to_screen(lng, lat);
    (
        if position.x.is_some() {
            placed.0
        } else {
            None
        },
        if position.y.is_some() {
            placed.1
        } else {
            None
        },
    )
}

/// Places a list of positions, in order.
pub fn transform_coordinates(context: &RenderContext, positions: &Vec<Position>) -> (r: Vec<
    ScreenPoint,
>)
    ensures
        r@ == spec_transform_coordinates(context@, positions@),
{
    let mut out: Vec<ScreenPoint> = Vec::new();
    let mut i: usize = 0;
    while i < positions.len()
        invariant
            i <= positions.len(),
            out@.len() == i,
            forall|k: int| 0 <= k < i ==> out@[k] == spec_transform_position(context@, positions@[k]),
        decreases positions.len() - i,
    {
        out.push(transform_position(context, &positions[i]));
        i += 1;
    }
    assert(out@ =~= spec_transform_coordinates(context@, positions@));
    out
}

/// The position of a point geometry as a list of one; `None` for another
/// shape.
pub fn extract_point_coordinates(geometry: &Geometry) -> (r: Option<Vec<Position>>)
    ensures
        match geometry {
            Geometry::Point(p) => r.is_some() && r.unwrap()@ == seq![*p],
            _ => r.is_none(),
        },
{
    match geometry {
        Geometry::Point(p) => {
            let mut out: Vec<Position> = Vec::new();
            out.push(*p);
            assert(out@ =~= seq![*p]);
            Some(out)
        },
        _ => None,
    }
}

/// The positions of a line string; `None` for another shape.
pub fn extract_linestring_coordinates(geometry: &Geometry) -> (r: Option<Vec<Position>>)
    ensures
        match geometry {
            Geometry::LineString(ps) => r.is_some() && r.unwrap()@ == ps@,
            _ => r.is_none(),
        },
{
    match geometry {
        Geometry::LineString(ps) => Some(ps.clone()),
        _ => None,
    }
}

/// The rings of a polygon, the exterior first; `None` for another shape.
pub fn extract_polygon_coordinates(geometry: &Geometry) -> (r: Option<Vec<Vec<Position>>>)
    ensures
        match geometry {
            Geometry::Polygon(rings) => r.is_some() && r.unwrap().deep_view() == rings.deep_view(),
            _ => r.is_none(),
        },
{
    match geometry {
        Geometry::Polygon(rings) => Some(rings.clone()),
        _ => None,
    }
}

/// The positions of a multi-point; `None` for another shape.
pub fn extract_multipoint_coordinates(geometry: &Geometry) -> (r: Option<Vec<Position>>)
    ensures
        match geometry {
            Geometry::MultiPoint(ps) => r.is_some() && r.unwrap()@ == ps@,
            _ => r.is_none(),
        },
{
    match geometry {
        Geometry::MultiPoint(ps) => Some(ps.clone()),
        _ => None,
    }
}

/// The lines of a multi-line-string; `None` for another shape.
pub fn extract_multilinestring_coordinates(geometry: &Geometry) -> (r: Option<Vec<Vec<Position>>>)
    ensures
        match geometry {
            Geometry::MultiLineString(lines) => r.is_some() && r.unwrap().deep_view()
                == lines.deep_view(),
            _ => r.is_none(),
        },
{
    match geometry {
        Geometry::MultiLineString(lines) => Some(lines.clone()),
        _ => None,
    }
}

/// The polygons of a multi-polygon, each a list of rings; `None` for
/// another shape.
pub fn extract_multipolygon_coordinates(geometry: &Geometry) -> (r: Option<
    Vec<Vec<Vec<Position>>>,
>)
    ensures
        match geometry {
            Geometry::MultiPolygon(polygons) => r.is_some() && r.unwrap().deep_view()
                == polygons.deep_view(),
            _ => r.is_none(),
        },
{
    match geometry {
        Geometry::MultiPolygon(polygons) => Some(polygons.clone()),
        _ => None,
    }
}

/// Tells whether every place of the list is finite.
pub fn validate_coordinates(coords: &Vec<ScreenPoint>) -> (r: bool)
    ensures
        r == spec_validate_coordinates(coords@),
{
    let mut i: usize = 0;
    while i < coords.len()
        invariant
            i <= coords.len(),
            forall|k: int| 0 <= k < i ==> spec_is_finite(#[trigger] coords@[k]),
        decreases coords.len() - i,
    {
        let c: ScreenPoint = coords[i];
        if c.0.is_none() || c.1.is_none() {
            return false;
        }
        i += 1;
    }
    true
}

/// The places of the list as pairs of numbers, where all of them are
/// finite.
pub fn finite_coordinates(coords: &Vec<ScreenPoint>) -> (r: Option<Vec<(i64, i64)>>)
    ensures
        spec_validate_coordinates(coords@) ==> r.is_some() && r.unwrap()@
            == spec_finite_coordinates(coords@),
        !spec_validate_coordinates(coords@) ==> r.is_none(),
{
    let mut out: Vec<(i64, i64)> = Vec::new();
    let mut i: usize = 0;
    while i < coords.len()
        invariant
            i <= coords.len(),
            out@.len() == i,
            forall|k: int| 0 <= k < i ==> spec_is_finite(#[trigger] coords@[k]),
            forall|k: int|
                0 <= k < i ==> out@[k] == (coords@[k].0.unwrap(), coords@[k].1.unwrap()),
        decreases coords.len() - i,
    {
        match coords[i] {
            (Some(x), Some(y)) => {
                out.push((x, y));
            },
            _ => {
                assert(!spec_is_finite(coords@[i as int]));
                return None;
            },
        }
        i += 1;
    }
    assert(out@ =~= spec_finite_coordinates(coords@));
    Some(out)
}

/// The places of the list that lie on the surface, in order.
pub fn filter_coordinates_in_bounds(coords: &Vec<ScreenPoint>, context: &RenderContext) -> (r: Vec<
    ScreenPoint,
>)
    ensures
        r@ == coords@.filter(|c: ScreenPoint| spec_on_surface(context@, c)),
{
    let ghost keep = |c: ScreenPoint| spec_on_surface(context@, c);
    let mut out: Vec<ScreenPoint> = Vec::new();
    let mut i: usize = 0;
    proof {
        reveal(Seq::filter);
        assert(coords@.take(0) =~= Seq::empty());
    }
    while i < coords.len()
        invariant
            i <= coords.len(),
            keep == |c: ScreenPoint| spec_on_surface(context@, c),
            out@ == coords@.take(i as int).filter(keep),
        decreases coords.len() - i,
    {
        let c: ScreenPoint = coords[i];
        let inside: bool = match c {
            (Some(x), Some(y)) => x >= 0 && x <= context.canvas_size.0 && y >= 0 && y
                <= context.canvas_size.1,
            _ => false,
        };
        proof {
            reveal(Seq::filter);
            let next = coords@.take(i + 1);
            assert(next.drop_last() =~= coords@.take(i as int));
            assert(next.last() == c);
            assert(inside == keep(c));
        }
        if inside {
            out.push(c);
        }
        i += 1;
    }
    assert(coords@.take(i as int) =~= coords@);
    out
}

/// The places of the shapes that are drawn from one list of positions:
/// `Some` for a point, a line string and a multi-point, `None` for every
/// other shape.
pub open spec fn spec_transform_geometry(context: ContextModel, geometry: &Geometry) -> Option<
    Seq<ScreenPoint>,
> {
    match geometry {
        Geometry::Point(p) => Some(spec_transform_coordinates(context, seq![*p])),
        Geometry::LineString(ps) => Some(spec_transform_coordinates(context, ps@)),
        Geometry::MultiPoint(ps) => Some(spec_transform_coordinates(context, ps@)),
        _ => None,
    }
}

/// The places of the exterior ring of a polygon: `None` for another shape
/// and for a polygon without rings. Holes are left out.
pub open spec fn spec_transform_polygon(context: ContextModel, geometry: &Geometry) -> Option<
    Seq<ScreenPoint>,
> {
    match geometry {
        Geometry::Polygon(rings) => if rings@.len() > 0 {
            Some(spec_transform_coordinates(context, rings@[0]@))
        } else {
            None
        },
        _ => None,
    }
}

/// Places the positions of a point, a line string or a multi-point.
pub fn transform_geometry(context: &RenderContext, geometry: &Geometry) -> (r: Option<
    Vec<ScreenPoint>,
>)
    ensures
        match spec_transform_geometry(context@, geometry) {
            Some(places) => r.is_some() && r.unwrap()@ == places,
            None => r.is_none(),
        },
{
    match geometry {
        Geometry::Point(_) => match extract_point_coordinates(geometry) {
            Some(ps) => Some(transform_coordinates(context, &ps)),
            None => None,
        },
        Geometry::LineString(_) => match extract_linestring_coordinates(geometry) {
            Some(ps) => Some(transform_coordinates(context, &ps)),
            None => None,
        },
        Geometry::MultiPoint(_) => match extract_multipoint_coordinates(geometry) {
            Some(ps) => Some(transform_coordinates(context, &ps)),
            None => None,
        },
        _ => None,
    }
}

/// Places the exterior ring of a polygon.
pub fn transform_polygon(context: &RenderContext, geometry: &Geometry) -> (r: Option<
    Vec<ScreenPoint>,
>)
    ensures
        match spec_transform_polygon(context@, geometry) {
            Some(places) => r.is_some() && r.unwrap()@ == places,
            None => r.is_none(),
        },
{
    match geometry {
        Geometry::Polygon(rings) => {
            if rings.len() > 0 {
                Some(transform_coordinates(context, &rings[0]))
            } else {
                None
            }
        },
        _ => None,
    }
}

} // verus!

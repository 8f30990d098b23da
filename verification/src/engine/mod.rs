//! The rendering engine: the tile cache, the coordinate transforms and the
//! dispatch of geometries to drawing calls.

pub mod geometry;
pub mod pass;
pub mod renderer;
pub mod surface;
pub mod tiles;
pub mod transforms;

use vstd::prelude::*;
use crate::engine::geometry::finite_coordinates;
use crate::engine::geometry::spec_finite_coordinates;
use crate::engine::geometry::spec_transform_coordinates;
use crate::engine::geometry::spec_validate_coordinates;
use crate::engine::geometry::transform_coordinates;
use crate::engine::renderer::render_linestring;
use crate::engine::renderer::render_points;
use crate::engine::renderer::render_polygon;
use crate::engine::renderer::spec_render_linestring;
use crate::engine::renderer::spec_render_points;
use crate::engine::renderer::spec_render_polygon;
use crate::engine::surface::DrawOp;
use crate::engine::surface::Surface;
use crate::error::GeoArrowError;
use crate::fixed::UNIT;
use crate::geodata::Feature;
use crate::geodata::Geometry;
use crate::geodata::Position;
use crate::model::bounds::GeoBounds;
use crate::model::point::GeoPoint;
use crate::model::viewport::spec_zoom_level;
use crate::model::viewport::Viewport;
use crate::model::viewport::ViewportState;
use crate::projection::spec_world_to_screen;
use crate::projection::ScreenPoint;
use crate::view::view::MapStyle;
use crate::view::view::StyleModel;

verus! {

/// What one render pass draws with: the geographic bounds shown, the size of
/// the surface in fixed-point pixels (width, then height), the zoom level
/// and the style. A context is made for a pass and not changed during it.
#[derive(Debug)]
pub struct RenderContext {
    pub viewport_bounds: GeoBounds,
    pub canvas_size: (i64, i64),
    pub zoom_level: u8,
    pub style: MapStyle,
}

/// A render context as a mathematical value.
pub struct ContextModel {
    pub viewport_bounds: GeoBounds,
    pub canvas_size: (i64, i64),
    pub zoom_level: u8,
    pub style: StyleModel,
}

impl View for RenderContext {
    type V = ContextModel;

    open spec fn view(&self) -> ContextModel {
        ContextModel {
            viewport_bounds: self.viewport_bounds,
            canvas_size: self.canvas_size,
            zoom_level: self.zoom_level,
            style: self.style@,
        }
    }
}

impl Clone for RenderContext {
    fn clone(&self) -> (copy: RenderContext)
        ensures
            copy@ == self@,
    {
        RenderContext {
            viewport_bounds: self.viewport_bounds,
            canvas_size: self.canvas_size,
            zoom_level: self.zoom_level,
            style: self.style.clone(),
        }
    }
}

impl ContextModel {
    /// The place of a geographic position on the surface of the context.
    pub open spec fn world_to_screen(self, x: i64, y: i64) -> ScreenPoint {
        spec_world_to_screen(
            self.viewport_bounds,
            self.canvas_size.0,
            self.canvas_size.1,
            GeoPoint { lat: y, lng: x },
        )
    }

    /// The context of a pass that draws what a viewport shows.
    pub open spec fn of_viewport(v: ViewportState, style: StyleModel) -> ContextModel {
        ContextModel {
            viewport_bounds: v.bounds,
            canvas_size: (v.pixel_bounds.max_x, v.pixel_bounds.max_y),
            zoom_level: spec_zoom_level(v.zoom) as u8,
            style,
        }
    }
}

impl RenderContext {
    pub fn new(viewport_bounds: GeoBounds, canvas_size: (i64, i64), zoom_level: u8, style: MapStyle) -> (context: RenderContext)
        ensures
            context@ == (ContextModel {
                viewport_bounds,
                canvas_size,
                zoom_level,
                style: style@,
            }),
    {
        RenderContext { viewport_bounds, canvas_size, zoom_level, style }
    }

    /// The context of a pass that draws what the viewport shows: its
    /// bounds, the size of its surface and the whole part of its zoom.
    pub fn from_viewport(viewport: &Viewport, style: MapStyle) -> (context: RenderContext)
        ensures
            context@ == ContextModel::of_viewport(viewport@, style@),
    {
        let bounds: GeoBounds = viewport.bounds();
        let surface = viewport.pixel_bounds();
        proof {
            crate::model::viewport::lemma_extent_bounds(viewport@.size, viewport@.zoom);
        }
        let zoom_level: u8 = (viewport.zoom() / UNIT) as u8;
        RenderContext {
            viewport_bounds: bounds,
            canvas_size: (surface.max_x, surface.max_y),
            zoom_level,
            style,
        }
    }

    /// Places the geographic position (`x`, `y`), longitude first, on the
    /// surface: linear interpolation within the bounds, the vertical axis
    /// flipped; the origin where the bounds are empty.
    pub fn world_to_screen(&self, x: i64, y: i64) -> (r: ScreenPoint)
        ensures
            r == self@.world_to_screen(x, y),
    {
        let p = GeoPoint::new(y, x);
        crate::projection::world_to_screen(
            &self.viewport_bounds,
            self.canvas_size.0,
            self.canvas_size.1,
            &p,
        )
    }
}

/// A pass that draws what a viewport shows places every point where the
/// viewport places it.
pub proof fn lemma_context_agrees_with_viewport(v: ViewportState, style: StyleModel, p: GeoPoint)
    ensures
        ContextModel::of_viewport(v, style).world_to_screen(p.lng, p.lat) == v.world_to_screen(p),
{
}

/// A pass that draws what a well-formed viewport shows draws every valid
/// point: as one circle where the viewport places the point.
pub proof fn lemma_valid_point_is_drawn(v: ViewportState, style: StyleModel, p: GeoPoint)
    requires
        v.wf(),
        p.spec_is_valid(),
    ensures
        v.world_to_screen(p).0.is_some() && v.world_to_screen(p).1.is_some(),
        spec_points_part(
            ContextModel::of_viewport(v, style),
            seq![crate::model::geometry::position_of(p)],
        ) == Some(
            spec_render_points(
                style,
                seq![(v.world_to_screen(p).0.unwrap(), v.world_to_screen(p).1.unwrap())],
            ),
        ),
{
    crate::model::viewport::lemma_valid_point_has_a_place(v, p);
    crate::model::viewport::lemma_extent_bounds(v.size, v.zoom);
    let context = ContextModel::of_viewport(v, style);
    let ps = seq![crate::model::geometry::position_of(p)];
    let places = spec_transform_coordinates(context, ps);
    assert(places[0] == v.world_to_screen(p));
    assert(spec_validate_coordinates(places));
    assert(spec_finite_coordinates(places) =~= seq![
        (v.world_to_screen(p).0.unwrap(), v.world_to_screen(p).1.unwrap()),
    ]);
}

/// The places of a list of positions as pairs of numbers: `None` where
/// one of them is not finite.
pub open spec fn spec_places(context: ContextModel, ps: Seq<Position>) -> Option<Seq<(i64, i64)>> {
    let places = spec_transform_coordinates(context, ps);
    if spec_validate_coordinates(places) {
        Some(spec_finite_coordinates(places))
    } else {
        None
    }
}

/// The calls that draw a list of positions as points.
pub open spec fn spec_points_part(context: ContextModel, ps: Seq<Position>) -> Option<Seq<DrawOp>> {
    match spec_places(context, ps) {
        Some(points) => Some(spec_render_points(context.style, points)),
        None => None,
    }
}

/// The calls that draw a list of positions as a line.
pub open spec fn spec_line_part(context: ContextModel, ps: Seq<Position>) -> Option<Seq<DrawOp>> {
    match spec_places(context, ps) {
        Some(points) => Some(spec_render_linestring(context.style, points)),
        None => None,
    }
}

/// The calls that draw a polygon: those for its exterior ring. The holes
/// are not drawn and not looked at; a polygon without rings draws nothing.
pub open spec fn spec_polygon_part(context: ContextModel, rings: Seq<Seq<Position>>) -> Option<
    Seq<DrawOp>,
> {
    if rings.len() == 0 {
        Some(Seq::empty())
    } else {
        match spec_places(context, rings[0]) {
            Some(points) => Some(spec_render_polygon(context.style, points)),
            None => None,
        }
    }
}

/// The calls of all the parts one after the other: `None` where a part has
/// none.
pub open spec fn spec_sequence(parts: Seq<Option<Seq<DrawOp>>>) -> Option<Seq<DrawOp>>
    decreases parts.len(),
{
    if parts.len() == 0 {
        Some(Seq::empty())
    } else {
        match (spec_sequence(parts.drop_last()), parts.last()) {
            (Some(before), Some(last)) => Some(before + last),
            _ => None,
        }
    }
}

/// The calls for each line of a list of lines.
pub open spec fn spec_line_parts(context: ContextModel, lines: Seq<Seq<Position>>) -> Seq<
    Option<Seq<DrawOp>>,
> {
    Seq::new(lines.len(), |i: int| spec_line_part(context, lines[i]))
}

/// The calls for each polygon of a list of polygons.
pub open spec fn spec_polygon_parts(context: ContextModel, polygons: Seq<Seq<Seq<Position>>>) -> Seq<
    Option<Seq<DrawOp>>,
> {
    Seq::new(polygons.len(), |i: int| spec_polygon_part(context, polygons[i]))
}

/// The calls for each member of a geometry collection.
pub open spec fn spec_member_parts(context: ContextModel, members: &Vec<Geometry>) -> Seq<
    Option<Seq<DrawOp>>,
>
    decreases members,
{
    Seq::new(
        members@.len(),
        |i: int|
            if 0 <= i < members@.len() {
                proof {
                    vstd::std_specs::vec::axiom_vec_index_decreases(*members, i);
                }
                spec_geometry_calls(context, &members@[i])
            } else {
                None
            },
    )
}

/// The calls that draw a geometry, by its shape: points and multi-points as
/// circles, line strings and each line of a multi-line-string as stroked
/// paths, polygons and each polygon of a multi-polygon as filled and
/// stroked exterior rings, and the members of a collection one after the
/// other. `None` where a position that would be drawn has no finite place
/// on the surface.
pub open spec fn spec_geometry_calls(context: ContextModel, geometry: &Geometry) -> Option<
    Seq<DrawOp>,
>
    decreases geometry,
{
    match geometry {
        Geometry::Point(p) => spec_points_part(context, seq![*p]),
        Geometry::MultiPoint(ps) => spec_points_part(context, ps@),
        Geometry::LineString(ps) => spec_line_part(context, ps@),
        Geometry::MultiLineString(lines) => spec_sequence(
            spec_line_parts(context, lines.deep_view()),
        ),
        Geometry::Polygon(rings) => spec_polygon_part(context, rings.deep_view()),
        Geometry::MultiPolygon(polygons) => spec_sequence(
            spec_polygon_parts(context, polygons.deep_view()),
        ),
        Geometry::GeometryCollection(members) => spec_sequence(
            spec_member_parts(context, members),
        ),
    }
}

/// The calls that draw a feature: those of its geometry, and none for a
/// feature without geometry.
pub open spec fn spec_feature_calls(context: ContextModel, feature: &Feature) -> Option<
    Seq<DrawOp>,
> {
    match feature.geometry {
        Some(g) => spec_geometry_calls(context, &g),
        None => Some(Seq::empty()),
    }
}

/// One more part extends the calls of the parts before it.
pub proof fn lemma_sequence_step(parts: Seq<Option<Seq<DrawOp>>>, i: int)
    requires
        0 <= i < parts.len(),
    ensures
        spec_sequence(parts.take(i + 1)) == (match (spec_sequence(parts.take(i)), parts[i]) {
            (Some(before), Some(last)) => Some(before + last),
            _ => None,
        }),
{
    assert(parts.take(i + 1).drop_last() =~= parts.take(i));
    assert(parts.take(i + 1).last() == parts[i]);
}

/// Parts that have no calls up to some part have none as a whole.
pub proof fn lemma_sequence_fails(parts: Seq<Option<Seq<DrawOp>>>, i: int)
    requires
        0 <= i <= parts.len(),
        spec_sequence(parts.take(i)).is_none(),
    ensures
        spec_sequence(parts).is_none(),
    decreases parts.len() - i,
{
    if i == parts.len() {
        assert(parts.take(i) =~= parts);
    } else {
        lemma_sequence_step(parts, i);
        lemma_sequence_fails(parts, i + 1);
    }
}

/// The message of the error for a geometry that cannot be drawn.
pub open spec fn spec_not_finite_message() -> Seq<char> {
    "Geometry has a coordinate that is not finite"@
}

/// Draws positions as points; draws nothing and tells so where a place is
/// not finite.
fn collect_points(ps: &Vec<Position>, context: &RenderContext, out: &mut Surface) -> (ok: bool)
    ensures
        match spec_points_part(context@, ps@) {
            Some(calls) => ok && final(out)@ == old(out)@ + calls,
            None => !ok && final(out)@ == old(out)@,
        },
{
    let places = transform_coordinates(context, ps);
    match finite_coordinates(&places) {
        Some(points) => {
            render_points(&points, context, out);
            true
        },
        None => false,
    }
}

/// Draws positions as a line; draws nothing and tells so where a place is
/// not finite.
fn collect_line(ps: &Vec<Position>, context: &RenderContext, out: &mut Surface) -> (ok: bool)
    ensures
        match spec_line_part(context@, ps@) {
            Some(calls) => ok && final(out)@ == old(out)@ + calls,
            None => !ok && final(out)@ == old(out)@,
        },
{
    let places = transform_coordinates(context, ps);
    match finite_coordinates(&places) {
        Some(points) => {
            render_linestring(&points, context, out);
            true
        },
        None => false,
    }
}

/// Draws the exterior ring of a polygon; draws nothing and tells so where
/// a place is not finite.
fn collect_polygon(rings: &Vec<Vec<Position>>, context: &RenderContext, out: &mut Surface) -> (ok:
    bool)
    ensures
        match spec_polygon_part(context@, rings.deep_view()) {
            Some(calls) => ok && final(out)@ == old(out)@ + calls,
            None => !ok && final(out)@ == old(out)@,
        },
{
    if rings.len() == 0 {
        assert(out@ =~= old(out)@ + Seq::<DrawOp>::empty());
        return true;
    }
    assert(rings.deep_view()[0] =~= rings@[0]@);
    let places = transform_coordinates(context, &rings[0]);
    match finite_coordinates(&places) {
        Some(points) => {
            render_polygon(&points, context, out);
            true
        },
        None => false,
    }
}

/// Draws each line of a list of lines. Where a line cannot be drawn the
/// answer is `false`, and `out` holds the calls of the lines before it.
fn collect_lines(lines: &Vec<Vec<Position>>, context: &RenderContext, out: &mut Surface) -> (ok:
    bool)
    ensures
        match spec_sequence(spec_line_parts(context@, lines.deep_view())) {
            Some(calls) => ok && final(out)@ == old(out)@ + calls,
            None => !ok,
        },
{
    let ghost parts = spec_line_parts(context@, lines.deep_view());
    let ghost mut done: Seq<DrawOp> = Seq::empty();
    let mut i: usize = 0;
    assert(parts.take(0) =~= Seq::empty());
    assert(out@ =~= old(out)@ + done);
    while i < lines.len()
        invariant
            i <= lines.len(),
            parts == spec_line_parts(context@, lines.deep_view()),
            spec_sequence(parts.take(i as int)) == Some(done),
            out@ == old(out)@ + done,
        decreases lines.len() - i,
    {
        proof {
            assert(lines.deep_view()[i as int] =~= lines@[i as int]@);
            lemma_sequence_step(parts, i as int);
        }
        if !collect_line(&lines[i], context, out) {
            proof {
                lemma_sequence_fails(parts, i + 1);
            }
            return false;
        }
        proof {
            let added = spec_line_part(context@, lines@[i as int]@).unwrap();
            assert(out@ =~= old(out)@ + (done + added));
            done = done + added;
        }
        i += 1;
    }
    assert(parts.take(i as int) =~= parts);
    true
}

/// Draws each polygon of a list of polygons. Where a polygon cannot be
/// drawn the answer is `false`, and `out` holds the calls of the polygons
/// before it.
fn collect_polygons(polygons: &Vec<Vec<Vec<Position>>>, context: &RenderContext, out: &mut Surface) -> (ok:
    bool)
    ensures
        match spec_sequence(spec_polygon_parts(context@, polygons.deep_view())) {
            Some(calls) => ok && final(out)@ == old(out)@ + calls,
            None => !ok,
        },
{
    let ghost parts = spec_polygon_parts(context@, polygons.deep_view());
    let ghost mut done: Seq<DrawOp> = Seq::empty();
    let mut i: usize = 0;
    assert(parts.take(0) =~= Seq::empty());
    assert(out@ =~= old(out)@ + done);
    while i < polygons.len()
        invariant
            i <= polygons.len(),
            parts == spec_polygon_parts(context@, polygons.deep_view()),
            spec_sequence(parts.take(i as int)) == Some(done),
            out@ == old(out)@ + done,
        decreases polygons.len() - i,
    {
        proof {
            assert(polygons.deep_view()[i as int] == polygons@[i as int].deep_view());
            lemma_sequence_step(parts, i as int);
        }
        if !collect_polygon(&polygons[i], context, out) {
            proof {
                lemma_sequence_fails(parts, i + 1);
            }
            return false;
        }
        proof {
            let added = spec_polygon_part(context@, polygons@[i as int].deep_view()).unwrap();
            assert(out@ =~= old(out)@ + (done + added));
            done = done + added;
        }
        i += 1;
    }
    assert(parts.take(i as int) =~= parts);
    true
}

/// Draws a geometry on `out`. Where the geometry cannot be drawn the
/// answer is `false`, and `out` may hold the calls of the parts before the
/// one that failed.
fn collect_geometry(geometry: &Geometry, context: &RenderContext, out: &mut Surface) -> (ok: bool)
    ensures
        match spec_geometry_calls(context@, geometry) {
            Some(calls) => ok && final(out)@ == old(out)@ + calls,
            None => !ok,
        },
    decreases geometry,
{
    match geometry {
        Geometry::Point(p) => {
            let mut one: Vec<Position> = Vec::new();
            one.push(*p);
            assert(one@ =~= seq![*p]);
            collect_points(&one, context, out)
        },
        Geometry::MultiPoint(ps) => collect_points(ps, context, out),
        Geometry::LineString(ps) => collect_line(ps, context, out),
        Geometry::Polygon(rings) => collect_polygon(rings, context, out),
        Geometry::MultiLineString(lines) => collect_lines(lines, context, out),
        Geometry::MultiPolygon(polygons) => collect_polygons(polygons, context, out),
        Geometry::GeometryCollection(members) => {
            let ghost parts = spec_member_parts(context@, members);
            let ghost mut done: Seq<DrawOp> = Seq::empty();
            let mut i: usize = 0;
            assert(parts.take(0) =~= Seq::empty());
            assert(out@ =~= old(out)@ + done);
            while i < members.len()
                invariant
                    i <= members.len(),
                    geometry == Geometry::GeometryCollection(*members),
                    parts == spec_member_parts(context@, members),
                    spec_sequence(parts.take(i as int)) == Some(done),
                    out@ == old(out)@ + done,
                decreases members.len() - i,
            {
                proof {
                    lemma_sequence_step(parts, i as int);
                    vstd::std_specs::vec::axiom_vec_index_decreases(*members, i as int);
                }
                if !collect_geometry(&members[i], context, out) {
                    proof {
                        lemma_sequence_fails(parts, i + 1);
                    }
                    return false;
                }
                proof {
                    let added = spec_geometry_calls(context@, &members@[i as int]).unwrap();
                    assert(out@ =~= old(out)@ + (done + added));
                    done = done + added;
                }
                i += 1;
            }
            assert(parts.take(i as int) =~= parts);
            true
        },
    }
}

/// Draws a geometry, by its shape. A geometry with a position that has no
/// finite place on the surface is not drawn at all, and the error says so.
pub fn render_geometry(geometry: &Geometry, context: &RenderContext, surface: &mut Surface) -> (r:
    Result<(), GeoArrowError>)
    ensures
        match spec_geometry_calls(context@, geometry) {
            Some(calls) => r.is_ok() && final(surface)@ == old(surface)@ + calls,
            None => r.is_err() && r.unwrap_err().is_validation(spec_not_finite_message())
                && final(surface)@ == old(surface)@,
        },
{
    let mut drawn = Surface::new();
    if collect_geometry(geometry, context, &mut drawn) {
        assert(drawn@ =~= spec_geometry_calls(context@, geometry).unwrap());
        surface.absorb(drawn);
        Ok(())
    } else {
        Err(GeoArrowError::validation("Geometry has a coordinate that is not finite"))
    }
}

/// Draws one feature. A feature without geometry draws nothing and is no
/// error.
pub fn render_single_feature(feature: &Feature, context: &RenderContext, surface: &mut Surface) -> (r:
    Result<(), GeoArrowError>)
    ensures
        match spec_feature_calls(context@, feature) {
            Some(calls) => r.is_ok() && final(surface)@ == old(surface)@ + calls,
            None => r.is_err() && r.unwrap_err().is_validation(spec_not_finite_message())
                && final(surface)@ == old(surface)@,
        },
{
    match &feature.geometry {
        Some(geometry) => render_geometry(geometry, context, surface),
        None => {
            assert(surface@ =~= old(surface)@ + Seq::<DrawOp>::empty());
            Ok(())
        },
    }
}

/// The calls of the parts that have calls, one after the other. A part
/// without calls adds none and takes none away.
pub open spec fn spec_drawn(parts: Seq<Option<Seq<DrawOp>>>) -> Seq<DrawOp>
    decreases parts.len(),
{
    if parts.len() == 0 {
        Seq::empty()
    } else {
        spec_drawn(parts.drop_last()) + (match parts.last() {
            Some(calls) => calls,
            None => Seq::empty(),
        })
    }
}

/// The places of the parts without calls, ascending.
pub open spec fn spec_skipped(parts: Seq<Option<Seq<DrawOp>>>) -> Seq<int>
    decreases parts.len(),
{
    if parts.len() == 0 {
        Seq::empty()
    } else {
        let before = spec_skipped(parts.drop_last());
        if parts.last().is_none() {
            before.push(parts.len() - 1)
        } else {
            before
        }
    }
}

/// The skipped parts are the parts without calls, each once and in order.
pub proof fn lemma_skipped(parts: Seq<Option<Seq<DrawOp>>>)
    ensures
        forall|k: int|
            0 <= k < spec_skipped(parts).len() ==> 0 <= (#[trigger] spec_skipped(parts)[k])
                < parts.len() && parts[spec_skipped(parts)[k]].is_none(),
        forall|j: int, k: int|
            0 <= j < k < spec_skipped(parts).len() ==> spec_skipped(parts)[j] < spec_skipped(
                parts,
            )[k],
        forall|i: int|
            0 <= i < parts.len() && (#[trigger] parts[i]).is_none() ==> spec_skipped(
                parts,
            ).contains(i),
    decreases parts.len(),
{
    if parts.len() > 0 {
        let init = parts.drop_last();
        let before = spec_skipped(init);
        let all = spec_skipped(parts);
        lemma_skipped(init);
        assert forall|k: int| 0 <= k < all.len() implies 0 <= (#[trigger] all[k]) < parts.len()
            && parts[all[k]].is_none() by {
            if k < before.len() {
                assert(all[k] == before[k]);
                assert(init[before[k]] == parts[before[k]]);
            }
        }
        assert forall|j: int, k: int| 0 <= j < k < all.len() implies all[j] < all[k] by {
            assert(all[j] == before[j]);
            if k < before.len() {
                assert(all[k] == before[k]);
            }
        }
        assert forall|i: int| 0 <= i < parts.len() && (#[trigger] parts[i]).is_none() implies all.contains(
            i,
        ) by {
            if i < parts.len() - 1 {
                assert(init[i] == parts[i]);
                assert(before.contains(i));
                let k = choose|k: int| 0 <= k < before.len() && before[k] == i;
                assert(all[k] == i);
            } else {
                assert(all[all.len() - 1] == i);
            }
        }
    }
}

/// The calls of each feature of a batch.
pub open spec fn spec_feature_parts(context: ContextModel, features: Seq<Feature>) -> Seq<
    Option<Seq<DrawOp>>,
> {
    Seq::new(features.len(), |i: int| spec_feature_calls(context, &features[i]))
}

/// The calls that drawing a batch of features makes: those of each feature
/// that can be drawn, in the order of the batch.
pub open spec fn spec_batch_calls(context: ContextModel, features: Seq<Feature>) -> Seq<DrawOp> {
    spec_drawn(spec_feature_parts(context, features))
}

/// The places in a batch of the features that cannot be drawn, ascending.
pub open spec fn spec_batch_failures(context: ContextModel, features: Seq<Feature>) -> Seq<int> {
    spec_skipped(spec_feature_parts(context, features))
}

/// A feature of a batch that was not drawn, by its place in the batch.
#[derive(Debug)]
pub struct FeatureFailure {
    pub index: usize,
    pub error: GeoArrowError,
}

/// The failures name the given places, each with the error for a geometry
/// that cannot be drawn.
pub open spec fn spec_reported(failures: Seq<FeatureFailure>, places: Seq<int>) -> bool {
    &&& failures.len() == places.len()
    &&& forall|k: int|
        0 <= k < failures.len() ==> (#[trigger] failures[k]).index == places[k]
            && failures[k].error.is_validation(spec_not_finite_message())
}

/// Draws a batch of features in the order of the list. A feature that
/// cannot be drawn is skipped and reported with its place in the list; the
/// features after it are drawn all the same.
pub fn render_features(features: &Vec<Feature>, context: &RenderContext, surface: &mut Surface) -> (failures:
    Vec<FeatureFailure>)
    ensures
        final(surface)@ == old(surface)@ + spec_batch_calls(context@, features@),
        spec_reported(failures@, spec_batch_failures(context@, features@)),
{
    let ghost parts = spec_feature_parts(context@, features@);
    let mut failures: Vec<FeatureFailure> = Vec::new();
    let mut i: usize = 0;
    assert(parts.take(0) =~= Seq::empty());
    assert(surface@ =~= old(surface)@ + Seq::<DrawOp>::empty());
    while i < features.len()
        invariant
            i <= features.len(),
            parts == spec_feature_parts(context@, features@),
            surface@ == old(surface)@ + spec_drawn(parts.take(i as int)),
            spec_reported(failures@, spec_skipped(parts.take(i as int))),
        decreases features.len() - i,
    {
        proof {
            let next = parts.take(i + 1);
            assert(next.drop_last() =~= parts.take(i as int));
            assert(next.last() == spec_feature_calls(context@, &features@[i as int]));
        }
        match render_single_feature(&features[i], context, surface) {
            Ok(_) => {
                proof {
                    let calls = spec_feature_calls(context@, &features@[i as int]).unwrap();
                    assert(surface@ =~= old(surface)@ + (spec_drawn(parts.take(i as int)) + calls));
                }
            },
            Err(error) => {
                failures.push(FeatureFailure { index: i, error });
                proof {
                    assert(surface@ =~= old(surface)@ + (spec_drawn(parts.take(i as int))
                        + Seq::<DrawOp>::empty()));
                }
            },
        }
        i += 1;
    }
    assert(parts.take(i as int) =~= parts);
    failures
}

} // verus!

//! The style of a map and the state of a map view.

use vstd::prelude::*;
use vstd::string::StringExecFns;
use crate::engine::render_features;
use crate::engine::renderer::spec_setup;
use crate::engine::spec_batch_calls;
use crate::engine::spec_batch_failures;
use crate::engine::spec_reported;
use crate::engine::surface::DrawOp;
use crate::engine::surface::Surface;
use crate::engine::ContextModel;
use crate::engine::FeatureFailure;
use crate::engine::RenderContext;
use crate::error::GeoArrowError;
use crate::fixed::UNIT;
use crate::geodata::Feature;
use crate::model::bounds::GeoBounds;
use crate::model::point::GeoPoint;
use crate::model::point::PixelSize;
use crate::model::source::GeoArrowFile;
use crate::model::viewport::spec_rejection;
use crate::model::viewport::Viewport;
use crate::model::viewport::ViewportState;

verus! {

/// The colors and sizes that geometries are drawn with. Colors are CSS
/// color strings; the radius and the line width are fixed-point pixels.
#[derive(Debug)]
pub struct MapStyle {
    pub point_color: String,
    pub line_color: String,
    pub polygon_fill: String,
    pub polygon_stroke: String,
    pub point_radius: i64,
    pub line_width: i64,
}

/// A style as a mathematical value.
pub struct StyleModel {
    pub point_color: Seq<char>,
    pub line_color: Seq<char>,
    pub polygon_fill: Seq<char>,
    pub polygon_stroke: Seq<char>,
    pub point_radius: i64,
    pub line_width: i64,
}

impl StyleModel {
    /// Red points of radius 3, blue lines of width 2, and polygons filled in
    /// translucent green with a green outline.
    pub open spec fn standard() -> StyleModel {
        StyleModel {
            point_color: "#FF0000"@,
            line_color: "#0000FF"@,
            polygon_fill: "rgba(0, 255, 0, 0.3)"@,
            polygon_stroke: "#00FF00"@,
            point_radius: 402_653_184,
            line_width: 268_435_456,
        }
    }
}

impl View for MapStyle {
    type V = StyleModel;

    open spec fn view(&self) -> StyleModel {
        StyleModel {
            point_color: self.point_color@,
            line_color: self.line_color@,
            polygon_fill: self.polygon_fill@,
            polygon_stroke: self.polygon_stroke@,
            point_radius: self.point_radius,
            line_width: self.line_width,
        }
    }
}

impl Clone for MapStyle {
    fn clone(&self) -> (copy: MapStyle)
        ensures
            copy@ == self@,
    {
        MapStyle {
            point_color: self.point_color.clone(),
            line_color: self.line_color.clone(),
            polygon_fill: self.polygon_fill.clone(),
            polygon_stroke: self.polygon_stroke.clone(),
            point_radius: self.point_radius,
            line_width: self.line_width,
        }
    }
}

impl Default for MapStyle {
    fn default() -> (style: MapStyle)
        ensures
            style@ == StyleModel::standard(),
    {
        MapStyle {
            point_color: String::from_str("#FF0000"),
            line_color: String::from_str("#0000FF"),
            polygon_fill: String::from_str("rgba(0, 255, 0, 0.3)"),
            polygon_stroke: String::from_str("#00FF00"),
            point_radius: 402_653_184,
            line_width: 268_435_456,
        }
    }
}

/// Half the length of the crosshair that marks the center of a map: 10
/// pixels.
pub const CROSSHAIR_ARM: i64 = 1_342_177_280;

/// A map view: a data file shown at a position and a zoom level in a style.
/// All of its state is in memory.
#[derive(Debug)]
pub struct MapView {
    position: (i64, i64),
    zoom: u8,
    bounds: Option<GeoBounds>,
    id: i32,
    geoarrow_file: GeoArrowFile,
    style: MapStyle,
}

/// What a map view holds.
pub struct MapViewState {
    pub position: (i64, i64),
    pub zoom: u8,
    pub bounds: Option<GeoBounds>,
    pub id: i32,
    pub geoarrow_file: GeoArrowFile,
    pub style: StyleModel,
}

impl View for MapView {
    type V = MapViewState;

    closed spec fn view(&self) -> MapViewState {
        MapViewState {
            position: self.position,
            zoom: self.zoom,
            bounds: self.bounds,
            id: self.id,
            geoarrow_file: self.geoarrow_file,
            style: self.style@,
        }
    }
}

/// The calls that draw the frame of a map view on a surface of the given
/// size in whole pixels: the surface is cleared, set up for polygons in
/// the style, and a crosshair of two strokes of 20 pixels marks its center.
pub open spec fn spec_frame(style: StyleModel, width: u32, height: u32) -> Seq<DrawOp> {
    let cx = (width * UNIT / 2) as i64;
    let cy = (height * UNIT / 2) as i64;
    seq![DrawOp::ClearRect { x: 0, y: 0, width: (width * UNIT) as i64, height: (height * UNIT) as i64 }]
        + spec_setup(style) + seq![
        DrawOp::BeginPath,
        DrawOp::MoveTo { x: (cx - CROSSHAIR_ARM) as i64, y: cy },
        DrawOp::LineTo { x: (cx + CROSSHAIR_ARM) as i64, y: cy },
        DrawOp::MoveTo { x: cx, y: (cy - CROSSHAIR_ARM) as i64 },
        DrawOp::LineTo { x: cx, y: (cy + CROSSHAIR_ARM) as i64 },
        DrawOp::Stroke,
    ]
}

impl MapViewState {
    /// The center of the view as a point: the position holds the longitude
    /// first.
    pub open spec fn center(self) -> GeoPoint {
        GeoPoint { lat: self.position.1, lng: self.position.0 }
    }

    /// The message for the rule that keeps the view from having a viewport
    /// on a surface of the given size; `None` where it has one.
    pub open spec fn rejection(self, width: u32, height: u32) -> Option<Seq<char>> {
        spec_rejection(self.center(), (self.zoom * UNIT) as i64, PixelSize { width, height })
    }

    /// The viewport of the view on a surface of the given size.
    pub open spec fn viewport(self, width: u32, height: u32) -> ViewportState {
        ViewportState::of(
            self.center(),
            (self.zoom * UNIT) as i64,
            0,
            PixelSize { width, height },
        )
    }

    /// What a pass draws with that shows the view on a surface of the given
    /// size.
    pub open spec fn context(self, width: u32, height: u32) -> ContextModel {
        ContextModel::of_viewport(self.viewport(width, height), self.style)
    }

    /// The call that clears a surface of the given size.
    pub open spec fn cleared(self, width: u32, height: u32) -> DrawOp {
        DrawOp::ClearRect {
            x: 0,
            y: 0,
            width: (width * UNIT) as i64,
            height: (height * UNIT) as i64,
        }
    }
}

impl Default for MapView {
    /// A view of the sample file at the origin, at zoom level 1, in the
    /// standard style.
    fn default() -> (view: MapView)
        ensures
            view@.position == (0i64, 0i64),
            view@.zoom == 1,
            view@.bounds.is_none(),
            view@.id == 0,
            view@.style == StyleModel::standard(),
            view@.geoarrow_file.path@ == "./data/Utah.geojson"@,
            view@.geoarrow_file.size == 0,
            view@.geoarrow_file.created_at@ == "2023-01-01"@,
            view@.geoarrow_file.feature_count.is_none(),
    {
        MapView {
            position: (0, 0),
            zoom: 1,
            bounds: None,
            id: 0,
            geoarrow_file: GeoArrowFile::new(
                String::from_str("./data/Utah.geojson"),
                0,
                String::from_str("2023-01-01"),
            ),
            style: MapStyle::default(),
        }
    }
}

impl MapView {
    /// A view of a data file at a position (longitude first) and a zoom
    /// level, in the standard style.
    pub fn new(id: i32, geoarrow_file: GeoArrowFile, position: (i64, i64), zoom: u8) -> (view:
        MapView)
        ensures
            view@ == (MapViewState {
                position,
                zoom,
                bounds: None,
                id,
                geoarrow_file,
                style: StyleModel::standard(),
            }),
    {
        MapView { id, zoom, geoarrow_file, bounds: None, position, style: MapStyle::default() }
    }

    /// The view that [`Default`] gives: the sample file at the origin, at
    /// zoom level 1, in the standard style.
    pub fn new_wasm() -> (view: MapView)
        ensures
            view@.position == (0i64, 0i64),
            view@.zoom == 1,
            view@.bounds.is_none(),
            view@.id == 0,
            view@.style == StyleModel::standard(),
            view@.geoarrow_file.path@ == "./data/Utah.geojson"@,
            view@.geoarrow_file.size == 0,
            view@.geoarrow_file.created_at@ == "2023-01-01"@,
            view@.geoarrow_file.feature_count.is_none(),
    {
        MapView::default()
    }

    pub fn set_position(&mut self, position: (i64, i64))
        ensures
            final(self)@ == (MapViewState { position, ..old(self)@ }),
    {
        self.position = position;
    }

    pub fn get_position(&self) -> (position: (i64, i64))
        ensures
            position == self@.position,
    {
        self.position
    }

    pub fn set_zoom(&mut self, zoom: u8)
        ensures
            final(self)@ == (MapViewState { zoom, ..old(self)@ }),
    {
        self.zoom = zoom;
    }

    pub fn get_zoom(&self) -> (zoom: u8)
        ensures
            zoom == self@.zoom,
    {
        self.zoom
    }

    pub fn zoom(&self) -> (zoom: u8)
        ensures
            zoom == self@.zoom,
    {
        self.zoom
    }

    pub fn set_zoom_wasm(&mut self, zoom: u8)
        ensures
            final(self)@ == (MapViewState { zoom, ..old(self)@ }),
    {
        self.zoom = zoom;
    }

    pub fn position_x(&self) -> (x: i64)
        ensures
            x == self@.position.0,
    {
        self.position.0
    }

    pub fn position_y(&self) -> (y: i64)
        ensures
            y == self@.position.1,
    {
        self.position.1
    }

    pub fn set_position_wasm(&mut self, x: i64, y: i64)
        ensures
            final(self)@ == (MapViewState { position: (x, y), ..old(self)@ }),
    {
        self.position = (x, y);
    }

    /// The identifier of the view.
    pub fn id(&self) -> (id: i32)
        ensures
            id == self@.id,
    {
        self.id
    }

    /// The data file that the view shows.
    pub fn geoarrow_file(&self) -> (file: &GeoArrowFile)
        ensures
            *file == self@.geoarrow_file,
    {
        &self.geoarrow_file
    }

    /// The viewport of the view on a surface of the given size in whole
    /// pixels: centered at the position, at the zoom level of the view.
    ///
    /// Fails like [`Viewport::new`]: for a position that is no valid point,
    /// a zoom level above 20 or a surface without width or height.
    pub fn viewport(&self, width: u32, height: u32) -> (r: Result<Viewport, GeoArrowError>)
        ensures
            match self@.rejection(width, height) {
                Some(text) => r.is_err() && r.unwrap_err().is_validation(text),
                None => r.is_ok() && r.unwrap()@ == self@.viewport(width, height)
                    && r.unwrap()@.wf(),
            },
    {
        Viewport::new(
            GeoPoint::new(self.position.1, self.position.0),
            (self.zoom as i64) * UNIT,
            PixelSize::new(width, height),
        )
    }

    /// Draws the features on a surface of the given size in whole pixels,
    /// as the view shows them: the surface is cleared, and every feature is
    /// drawn in the style of the view where the viewport of the view places
    /// it, in the order of the list. A feature that cannot be drawn is
    /// skipped and reported with its place in the list.
    ///
    /// Fails, and draws nothing, where the view has no viewport on such a
    /// surface.
    pub fn render_to_surface(
        &self,
        features: &Vec<Feature>,
        surface: &mut Surface,
        width: u32,
        height: u32,
    ) -> (r: Result<Vec<FeatureFailure>, GeoArrowError>)
        ensures
            match self@.rejection(width, height) {
                Some(text) => r.is_err() && r.unwrap_err().is_validation(text) && final(surface)@
                    == old(surface)@,
                None => r.is_ok() && final(surface)@ == old(surface)@.push(
                    self@.cleared(width, height),
                ) + spec_batch_calls(self@.context(width, height), features@) && spec_reported(
                    r.unwrap()@,
                    spec_batch_failures(self@.context(width, height), features@),
                ),
            },
    {
        let viewport = match self.viewport(width, height) {
            Ok(viewport) => viewport,
            Err(e) => {
                return Err(e);
            },
        };
        let context = RenderContext::from_viewport(&viewport, self.style.clone());
        surface.clear(context.canvas_size.0, context.canvas_size.1);
        let failures = render_features(features, &context, surface);
        Ok(failures)
    }

    /// Draws the empty frame of the view on a surface of the given size in
    /// whole pixels: the cleared surface and a crosshair at its center.
    pub fn render_frame(&self, surface: &mut Surface, width: u32, height: u32)
        ensures
            final(surface)@ == old(surface)@ + spec_frame(self@.style, width, height),
    {
        assert(width * UNIT <= 0xffff_ffff * UNIT && height * UNIT <= 0xffff_ffff * UNIT) by (nonlinear_arith)
            requires
                width <= 0xffff_ffff,
                height <= 0xffff_ffff,
                UNIT == 134_217_728,
        ;
        let w: i64 = (width as i64) * UNIT;
        let h: i64 = (height as i64) * UNIT;
        let cx: i64 = w / 2;
        let cy: i64 = h / 2;
        surface.clear(w, h);
        surface.set_fill_style(self.style.polygon_fill.as_str());
        surface.set_stroke_style(self.style.polygon_stroke.as_str());
        surface.set_line_width(self.style.line_width);
        surface.begin_path();
        surface.move_to(cx - CROSSHAIR_ARM, cy);
        surface.line_to(cx + CROSSHAIR_ARM, cy);
        surface.move_to(cx, cy - CROSSHAIR_ARM);
        surface.line_to(cx, cy + CROSSHAIR_ARM);
        surface.stroke();
        assert(surface@ =~= old(surface)@ + spec_frame(self@.style, width, height));
    }
}

} // verus!

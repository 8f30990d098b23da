use geoarrow_viz::engine::surface::DrawCall;
use geoarrow_viz::engine::surface::Surface;
use geoarrow_viz::engine::surface::FULL_TURN;
use geoarrow_viz::error::GeoArrowError;
use geoarrow_viz::geodata::Feature;
use geoarrow_viz::geodata::Geometry;
use geoarrow_viz::geodata::Position;
use geoarrow_viz::model::GeoPoint;
use geoarrow_viz::fixed::div_ceil;
use geoarrow_viz::fixed::div_floor;
use geoarrow_viz::fixed::narrow_i128;
use geoarrow_viz::fixed::pow2_u64;
use geoarrow_viz::fixed::pow2_wide;
use geoarrow_viz::model::GeoArrowFile;
use geoarrow_viz::text::ends_with;
use geoarrow_viz::text::first_visible;
use geoarrow_viz::text::is_whitespace;
use geoarrow_viz::text::starts_with;
use geoarrow_viz::view::view::MapStyle;
use geoarrow_viz::view::view::MapView;

const UNIT: i64 = 134_217_728;

#[test]
fn test_map_view_creation() {
    let map_view = MapView::default();
    assert_eq!(map_view.get_zoom(), 1);
}

#[test]
fn default_view_shows_the_sample_file_at_the_origin() {
    let view = MapView::new_wasm();
    assert_eq!(view.get_position(), (0, 0));
    assert_eq!(view.zoom(), 1);
    assert_eq!(view.id(), 0);
    assert_eq!(view.geoarrow_file().file_path(), "./data/Utah.geojson");
    assert_eq!(view.geoarrow_file().created_at, "2023-01-01");
    assert_eq!(view.geoarrow_file().size, 0);
}

#[test]
fn view_keeps_position_and_zoom() {
    let file = GeoArrowFile::new(String::from("./sample_data.geojson"), 0, String::from("2025-01-01"));
    let mut view = MapView::new(1, file, (10 * UNIT, 20 * UNIT), 15);
    assert_eq!(view.id(), 1);
    assert_eq!(view.get_position(), (10 * UNIT, 20 * UNIT));
    assert_eq!(view.position_x(), 10 * UNIT);
    assert_eq!(view.position_y(), 20 * UNIT);
    assert_eq!(view.get_zoom(), 15);
    view.set_position((-UNIT, 3));
    assert_eq!(view.get_position(), (-UNIT, 3));
    view.set_position_wasm(7, 8);
    assert_eq!((view.position_x(), view.position_y()), (7, 8));
    view.set_zoom(4);
    assert_eq!(view.zoom(), 4);
    view.set_zoom_wasm(9);
    assert_eq!(view.get_zoom(), 9);
    assert_eq!(view.geoarrow_file().file_path(), "./sample_data.geojson");
}

#[test]
fn frame_is_a_cleared_surface_with_a_crosshair() {
    let view = MapView::default();
    let mut surface = Surface::new();
    view.render_frame(&mut surface, 800, 601);
    let cx = 400 * UNIT;
    let cy = 601 * UNIT / 2;
    assert_eq!(
        surface.calls,
        vec![
            DrawCall::ClearRect { x: 0, y: 0, width: 800 * UNIT, height: 601 * UNIT },
            DrawCall::SetFillStyle(String::from("rgba(0, 255, 0, 0.3)")),
            DrawCall::SetStrokeStyle(String::from("#00FF00")),
            DrawCall::SetLineWidth(2 * UNIT),
            DrawCall::BeginPath,
            DrawCall::MoveTo { x: cx - 10 * UNIT, y: cy },
            DrawCall::LineTo { x: cx + 10 * UNIT, y: cy },
            DrawCall::MoveTo { x: cx, y: cy - 10 * UNIT },
            DrawCall::LineTo { x: cx, y: cy + 10 * UNIT },
            DrawCall::Stroke,
        ]
    );
    let mut tiny = Surface::new();
    view.render_frame(&mut tiny, 0, u32::MAX);
    assert_eq!(tiny.calls[5], DrawCall::MoveTo { x: -10 * UNIT, y: (u32::MAX as i64) * UNIT / 2 });
}

#[test]
fn standard_style() {
    let style = MapStyle::default();
    assert_eq!(style.point_color, "#FF0000");
    assert_eq!(style.line_color, "#0000FF");
    assert_eq!(style.polygon_fill, "rgba(0, 255, 0, 0.3)");
    assert_eq!(style.polygon_stroke, "#00FF00");
    assert_eq!(style.point_radius, 3 * UNIT);
    assert_eq!(style.line_width, 2 * UNIT);
    let copy = style.clone();
    assert_eq!(copy.polygon_stroke, "#00FF00");
    assert_eq!(copy.point_radius, 3 * UNIT);
}

#[test]
fn error_is_rendered_with_the_prefix_of_its_kind() {
    assert_eq!(GeoArrowError::Io(String::from("disk")).to_text(), "i/o error: disk");
    assert_eq!(GeoArrowError::Arrow(String::from("a")).to_text(), "Arrow error: a");
    assert_eq!(GeoArrowError::Parquet(String::from("p")).to_text(), "Parquet Error: p");
    assert_eq!(GeoArrowError::Serialization(String::from("s")).to_text(), "Serialization error: s");
    assert_eq!(GeoArrowError::Validation(String::from("v")).to_text(), "Validation error: v");
    assert_eq!(GeoArrowError::Validation(String::from("v")).message(), "v");
    assert_eq!(GeoArrowError::validation("text"), GeoArrowError::Validation(String::from("text")));
    assert_eq!(GeoArrowError::Validation(String::from("v")).clone(), GeoArrowError::Validation(String::from("v")));
    assert_eq!(GeoArrowError::Wasm(String::from("No window")).to_text(), "WebAssembly error: No window");
    assert_eq!(GeoArrowError::Wasm(String::from("No window")).message(), "No window");
    assert_eq!(GeoArrowError::Io(String::new()).message(), "");
    assert_eq!(GeoArrowError::serialization("text"), GeoArrowError::Serialization(String::from("text")));
}

#[test]
fn quotients_are_rounded_as_named() {
    assert_eq!(div_floor(7, 2), 3);
    assert_eq!(div_floor(-7, 2), -4);
    assert_eq!(div_floor(-8, 2), -4);
    assert_eq!(div_floor(-1, 3), -1);
    assert_eq!(div_floor(0, 3), 0);
    assert_eq!(div_floor(i128::MIN, 1), i128::MIN);
    assert_eq!(div_floor(i128::MIN, i128::MAX), -2);
    assert_eq!(div_ceil(7, 2), 4);
    assert_eq!(div_ceil(-7, 2), -3);
    assert_eq!(div_ceil(8, 2), 4);
    assert_eq!(div_ceil(1, 3), 1);
    assert_eq!(div_ceil(0, 3), 0);
    assert_eq!(narrow_i128(5), Some(5));
    assert_eq!(narrow_i128(i64::MAX as i128), Some(i64::MAX));
    assert_eq!(narrow_i128(i64::MIN as i128), Some(i64::MIN));
    assert_eq!(narrow_i128(i64::MAX as i128 + 1), None);
    assert_eq!(narrow_i128(i64::MIN as i128 - 1), None);
    assert_eq!(pow2_u64(0), 1);
    assert_eq!(pow2_u64(20), 1_048_576);
    assert_eq!(pow2_u64(32), 4_294_967_296);
    assert_eq!(pow2_wide(0), 1);
    assert_eq!(pow2_wide(64), 1i128 << 64);
}

#[test]
fn text_tests() {
    assert!(starts_with("https://a", "http"));
    assert!(starts_with("http", "http"));
    assert!(starts_with("anything", ""));
    assert!(!starts_with("htt", "http"));
    assert!(!starts_with("xhttp", "http"));
    assert!(starts_with("\u{e9}t\u{e9}", "\u{e9}t"));
    assert!(ends_with("a.geojson", ".geojson"));
    assert!(ends_with(".json", ".json"));
    assert!(ends_with("anything", ""));
    assert!(!ends_with("json", ".json"));
    assert!(!ends_with("a.json.bak", ".json"));
    assert!(ends_with("na\u{ef}ve", "\u{ef}ve"));
    assert_eq!(first_visible("  {"), Some('{'));
    assert_eq!(first_visible("x"), Some('x'));
    assert_eq!(first_visible(" \t\r\n"), None);
    assert_eq!(first_visible(""), None);
    assert_eq!(first_visible("\u{a0}\u{3000}\u{e9}"), Some('\u{e9}'));
}

fn deg(v: f64) -> i64 {
    (v * 134_217_728.0).round() as i64
}

fn point_at(lng: f64, lat: f64) -> Feature {
    Feature {
        id: None,
        geometry: Some(Geometry::Point(Position::new(Some(deg(lng)), Some(deg(lat))))),
        properties: None,
    }
}

#[test]
fn white_space_is_what_the_standard_library_takes_for_it() {
    for n in 0..=0x10FFFFu32 {
        if let Some(c) = char::from_u32(n) {
            assert_eq!(is_whitespace(c), c.is_whitespace(), "U+{:04X}", n);
        }
    }
    assert!(is_whitespace(' ') && is_whitespace('\n') && is_whitespace('\u{3000}'));
    assert!(!is_whitespace('a') && !is_whitespace('\u{200B}') && !is_whitespace('\u{180E}'));
}

#[test]
fn view_draws_its_features_where_its_viewport_places_them() {
    let file = GeoArrowFile::new(String::from("./sample_data.geojson"), 0, String::from("2025-01-01"));
    let view = MapView::new(1, file, (deg(10.0), deg(20.0)), 15);
    let viewport = view.viewport(800, 600).unwrap();
    assert_eq!(viewport.center(), GeoPoint::new(deg(20.0), deg(10.0)));
    assert_eq!(viewport.zoom(), 15 * UNIT);
    let places = [(10.0, 20.0), (10.004, 20.002), (9.997, 19.9985)];
    let features: Vec<Feature> = places.iter().map(|p| point_at(p.0, p.1)).collect();
    let mut surface = Surface::new();
    let failures = view.render_to_surface(&features, &mut surface, 800, 600).unwrap();
    assert!(failures.is_empty());
    assert_eq!(surface.calls.len(), 1 + 3 * 4);
    assert_eq!(surface.calls[0], DrawCall::ClearRect { x: 0, y: 0, width: 800 * UNIT, height: 600 * UNIT });
    assert_eq!(surface.calls[1], DrawCall::SetFillStyle(String::from("#FF0000")));
    for (k, p) in places.iter().enumerate() {
        let (x, y) = viewport.world_to_screen(&GeoPoint::new(deg(p.1), deg(p.0)));
        assert_eq!(
            surface.calls[1 + 4 * k + 2],
            DrawCall::Arc { cx: x.unwrap(), cy: y.unwrap(), radius: 3 * UNIT, start_angle: 0, end_angle: FULL_TURN }
        );
    }
    assert_eq!(
        surface.calls[3],
        DrawCall::Arc { cx: 400 * UNIT, cy: 300 * UNIT, radius: 3 * UNIT, start_angle: 0, end_angle: FULL_TURN }
    );
}

#[test]
fn view_reports_the_feature_it_cannot_draw_and_draws_the_others() {
    let view = MapView::default();
    let line = Feature {
        id: None,
        geometry: Some(Geometry::LineString(vec![Position::new(Some(0), Some(0)), Position::new(None, Some(5))])),
        properties: None,
    };
    let features = vec![line, point_at(0.0, 0.0)];
    let mut surface = Surface::new();
    let failures = view.render_to_surface(&features, &mut surface, 256, 256).unwrap();
    assert_eq!(failures.len(), 1);
    assert_eq!(failures[0].index, 0);
    assert_eq!(
        failures[0].error,
        GeoArrowError::Validation(String::from("Geometry has a coordinate that is not finite"))
    );
    let arcs = surface.calls.iter().filter(|c| matches!(c, DrawCall::Arc { .. })).count();
    assert_eq!(arcs, 1);
    assert_eq!(surface.calls[3], DrawCall::Arc {
        cx: 128 * UNIT,
        cy: 128 * UNIT,
        radius: 3 * UNIT,
        start_angle: 0,
        end_angle: FULL_TURN,
    });
}

#[test]
fn view_without_a_viewport_draws_nothing() {
    let file = || GeoArrowFile::new(String::from("a.geojson"), 0, String::new());
    let features = vec![point_at(0.0, 0.0)];
    let mut surface = Surface::new();
    surface.begin_path();
    let far = MapView::new(1, file(), (deg(10.0), deg(91.0)), 3);
    assert_eq!(
        far.render_to_surface(&features, &mut surface, 800, 600).unwrap_err(),
        GeoArrowError::Validation(String::from("Invalid center coordinates"))
    );
    let deep = MapView::new(1, file(), (0, 0), 21);
    assert_eq!(
        deep.render_to_surface(&features, &mut surface, 800, 600).unwrap_err(),
        GeoArrowError::Validation(String::from("Zoom must be between 0.0 and 20.0"))
    );
    let view = MapView::new(1, file(), (0, 0), 20);
    assert_eq!(
        view.render_to_surface(&features, &mut surface, 0, 600).unwrap_err(),
        GeoArrowError::Validation(String::from("Size dimensions must be greater than 0"))
    );
    assert!(view.viewport(800, 0).is_err());
    assert_eq!(surface.calls, vec![DrawCall::BeginPath]);
    assert!(view.render_to_surface(&features, &mut surface, 1, 1).is_ok());
}

use geoarrow_viz::engine::geometry::extract_linestring_coordinates;
use geoarrow_viz::engine::geometry::extract_multilinestring_coordinates;
use geoarrow_viz::engine::geometry::extract_multipoint_coordinates;
use geoarrow_viz::engine::geometry::extract_multipolygon_coordinates;
use geoarrow_viz::engine::geometry::extract_point_coordinates;
use geoarrow_viz::engine::geometry::extract_polygon_coordinates;
use geoarrow_viz::engine::geometry::filter_coordinates_in_bounds;
use geoarrow_viz::engine::geometry::finite_coordinates;
use geoarrow_viz::engine::geometry::transform_coordinates;
use geoarrow_viz::engine::geometry::transform_geometry;
use geoarrow_viz::engine::geometry::transform_polygon;
use geoarrow_viz::engine::geometry::transform_position;
use geoarrow_viz::engine::geometry::validate_coordinates;
use geoarrow_viz::engine::render_features;
use geoarrow_viz::engine::render_geometry;
use geoarrow_viz::engine::render_single_feature;
use geoarrow_viz::engine::renderer::clear_canvas;
use geoarrow_viz::engine::renderer::draw_background;
use geoarrow_viz::engine::renderer::draw_grid;
use geoarrow_viz::engine::renderer::draw_path;
use geoarrow_viz::engine::renderer::render_linestring;
use geoarrow_viz::engine::renderer::render_points;
use geoarrow_viz::engine::renderer::render_polygon;
use geoarrow_viz::engine::renderer::render_single_point;
use geoarrow_viz::engine::renderer::setup_canvas_context;
use geoarrow_viz::engine::surface::DrawCall;
use geoarrow_viz::engine::surface::Surface;
use geoarrow_viz::engine::surface::FULL_TURN;
use geoarrow_viz::engine::RenderContext;
use geoarrow_viz::error::GeoArrowError;
use geoarrow_viz::geodata::Feature;
use geoarrow_viz::geodata::Geometry;
use geoarrow_viz::geodata::Position;
use geoarrow_viz::model::GeoBounds;
use geoarrow_viz::model::GeoPoint;
use geoarrow_viz::model::PixelSize;
use geoarrow_viz::model::Viewport;
use geoarrow_viz::view::view::MapStyle;

const UNIT: i64 = 134_217_728;

fn deg(v: f64) -> i64 {
    (v * 134_217_728.0).round() as i64
}

fn position(x: f64, y: f64) -> Position {
    Position::new(Some(deg(x)), Some(deg(y)))
}

fn feature(geometry: Geometry) -> Feature {
    Feature { id: None, geometry: Some(geometry), properties: None }
}

/// A surface of 100 x 100 units that shows the square from 0 to 100.
fn square() -> RenderContext {
    RenderContext::new(GeoBounds::new(0, 0, 100, 100), (100, 100), 3, MapStyle::default())
}

fn fill(color: &str) -> DrawCall {
    DrawCall::SetFillStyle(String::from(color))
}

fn stroke(color: &str) -> DrawCall {
    DrawCall::SetStrokeStyle(String::from(color))
}

fn circle(cx: i64, cy: i64) -> Vec<DrawCall> {
    vec![
        DrawCall::BeginPath,
        DrawCall::Arc { cx, cy, radius: 3 * UNIT, start_angle: 0, end_angle: FULL_TURN },
        DrawCall::Fill,
    ]
}

#[test]
fn three_points_give_three_arcs_where_the_viewport_places_them() {
    let viewport =
        Viewport::new(GeoPoint::new(deg(20.0), deg(10.0)), 15 * UNIT, PixelSize::new(800, 600)).unwrap();
    let context = RenderContext::from_viewport(&viewport, MapStyle::default());
    assert_eq!(context.viewport_bounds, viewport.bounds());
    assert_eq!(context.canvas_size, (800 * UNIT, 600 * UNIT));
    assert_eq!(context.zoom_level, 15);
    let places = [(10.0, 20.0), (10.004, 20.002), (9.997, 19.9985)];
    let features: Vec<Feature> =
        places.iter().map(|p| feature(Geometry::Point(position(p.0, p.1)))).collect();
    let mut surface = Surface::new();
    let failures = render_features(&features, &context, &mut surface);
    assert!(failures.is_empty());
    let arcs: Vec<(i64, i64)> = surface
        .calls
        .iter()
        .filter_map(|call| match call {
            DrawCall::Arc { cx, cy, .. } => Some((*cx, *cy)),
            _ => None,
        })
        .collect();
    assert_eq!(arcs.len(), 3);
    for (arc, p) in arcs.iter().zip(places.iter()) {
        let placed = viewport.world_to_screen(&GeoPoint::new(deg(p.1), deg(p.0)));
        assert_eq!((Some(arc.0), Some(arc.1)), placed);
    }
    assert_eq!(arcs[0], (400 * UNIT, 300 * UNIT));
    assert_eq!(surface.calls.len(), 12);
}

#[test]
fn bad_line_is_reported_and_the_point_is_drawn_all_the_same() {
    let context = square();
    let line = Geometry::LineString(vec![position(0.0, 0.0), Position::new(None, Some(5))]);
    let features = vec![feature(line), feature(Geometry::Point(Position::new(Some(50), Some(50))))];
    let mut surface = Surface::new();
    let failures = render_features(&features, &context, &mut surface);
    assert_eq!(failures.len(), 1);
    assert_eq!(failures[0].index, 0);
    assert_eq!(
        failures[0].error,
        GeoArrowError::Validation(String::from("Geometry has a coordinate that is not finite"))
    );
    let mut want = vec![fill("#FF0000")];
    want.extend(circle(50, 50));
    assert_eq!(surface.calls, want);
}

#[test]
fn failures_keep_the_order_of_the_batch() {
    let context = square();
    let bad = || feature(Geometry::Point(Position::new(Some(1), None)));
    let good = || feature(Geometry::Point(Position::new(Some(1), Some(1))));
    let features = vec![good(), bad(), good(), bad(), bad()];
    let mut surface = Surface::new();
    let failures = render_features(&features, &context, &mut surface);
    let indices: Vec<usize> = failures.iter().map(|f| f.index).collect();
    assert_eq!(indices, vec![1, 3, 4]);
    assert_eq!(surface.calls.len(), 8);
    let none: Vec<Feature> = vec![];
    assert!(render_features(&none, &context, &mut surface).is_empty());
    assert_eq!(surface.calls.len(), 8);
}

#[test]
fn feature_without_geometry_draws_nothing_and_is_no_error() {
    let context = square();
    let mut surface = Surface::new();
    let empty = Feature { id: None, geometry: None, properties: None };
    assert_eq!(render_single_feature(&empty, &context, &mut surface), Ok(()));
    assert!(surface.calls.is_empty());
}

#[test]
fn line_string_is_a_stroked_path() {
    let context = square();
    let mut surface = Surface::new();
    let line = Geometry::LineString(vec![
        Position::new(Some(0), Some(0)),
        Position::new(Some(50), Some(100)),
        Position::new(Some(100), Some(25)),
    ]);
    assert_eq!(render_geometry(&line, &context, &mut surface), Ok(()));
    assert_eq!(
        surface.calls,
        vec![
            stroke("#0000FF"),
            DrawCall::SetLineWidth(2 * UNIT),
            DrawCall::BeginPath,
            DrawCall::MoveTo { x: 0, y: 100 },
            DrawCall::LineTo { x: 50, y: 0 },
            DrawCall::LineTo { x: 100, y: 75 },
            DrawCall::Stroke,
        ]
    );
}

#[test]
fn empty_line_string_draws_nothing() {
    let context = square();
    let mut surface = Surface::new();
    assert_eq!(render_geometry(&Geometry::LineString(vec![]), &context, &mut surface), Ok(()));
    assert!(surface.calls.is_empty());
    assert_eq!(render_geometry(&Geometry::MultiLineString(vec![vec![]]), &context, &mut surface), Ok(()));
    assert!(surface.calls.is_empty());
}

#[test]
fn polygon_is_filled_before_it_is_stroked_and_holes_are_left_out() {
    let context = square();
    let mut surface = Surface::new();
    let outer = vec![
        Position::new(Some(10), Some(10)),
        Position::new(Some(90), Some(10)),
        Position::new(Some(90), Some(90)),
        Position::new(Some(10), Some(10)),
    ];
    let hole = vec![Position::new(None, None)];
    assert_eq!(render_geometry(&Geometry::Polygon(vec![outer, hole]), &context, &mut surface), Ok(()));
    assert_eq!(
        surface.calls,
        vec![
            fill("rgba(0, 255, 0, 0.3)"),
            stroke("#00FF00"),
            DrawCall::SetLineWidth(2 * UNIT),
            DrawCall::BeginPath,
            DrawCall::MoveTo { x: 10, y: 90 },
            DrawCall::LineTo { x: 90, y: 90 },
            DrawCall::LineTo { x: 90, y: 10 },
            DrawCall::LineTo { x: 10, y: 90 },
            DrawCall::ClosePath,
            DrawCall::Fill,
            DrawCall::Stroke,
        ]
    );
}

#[test]
fn polygon_without_rings_draws_nothing() {
    let context = square();
    let mut surface = Surface::new();
    assert_eq!(render_geometry(&Geometry::Polygon(vec![]), &context, &mut surface), Ok(()));
    assert_eq!(render_geometry(&Geometry::MultiPolygon(vec![vec![], vec![]]), &context, &mut surface), Ok(()));
    assert!(surface.calls.is_empty());
}

#[test]
fn multi_shapes_draw_each_part_in_order() {
    let context = square();
    let a = Position::new(Some(10), Some(20));
    let b = Position::new(Some(30), Some(40));
    let mut surface = Surface::new();
    render_geometry(&Geometry::MultiPoint(vec![a, b]), &context, &mut surface).unwrap();
    let mut want = vec![fill("#FF0000")];
    want.extend(circle(10, 80));
    want.extend(circle(30, 60));
    assert_eq!(surface.calls, want);

    let mut surface = Surface::new();
    render_geometry(&Geometry::MultiLineString(vec![vec![a, b], vec![b]]), &context, &mut surface).unwrap();
    assert_eq!(
        surface.calls,
        vec![
            stroke("#0000FF"),
            DrawCall::SetLineWidth(2 * UNIT),
            DrawCall::BeginPath,
            DrawCall::MoveTo { x: 10, y: 80 },
            DrawCall::LineTo { x: 30, y: 60 },
            DrawCall::Stroke,
            stroke("#0000FF"),
            DrawCall::SetLineWidth(2 * UNIT),
            DrawCall::BeginPath,
            DrawCall::MoveTo { x: 30, y: 60 },
            DrawCall::Stroke,
        ]
    );

    let mut surface = Surface::new();
    let polygons = vec![vec![vec![a, b, a]], vec![], vec![vec![b], vec![a, a]]];
    render_geometry(&Geometry::MultiPolygon(polygons), &context, &mut surface).unwrap();
    let starts: Vec<&DrawCall> =
        surface.calls.iter().filter(|c| matches!(c, DrawCall::MoveTo { .. })).collect();
    assert_eq!(starts, vec![&DrawCall::MoveTo { x: 10, y: 80 }, &DrawCall::MoveTo { x: 30, y: 60 }]);
    assert_eq!(surface.calls.len(), 10 + 8);
}

#[test]
fn collection_draws_its_members_one_after_the_other() {
    let context = square();
    let a = Position::new(Some(10), Some(20));
    let b = Position::new(Some(30), Some(40));
    let inner = Geometry::GeometryCollection(vec![Geometry::Point(b), Geometry::GeometryCollection(vec![])]);
    let all = Geometry::GeometryCollection(vec![Geometry::Point(a), inner, Geometry::LineString(vec![a])]);
    let mut surface = Surface::new();
    assert_eq!(render_geometry(&all, &context, &mut surface), Ok(()));
    let mut want = vec![fill("#FF0000")];
    want.extend(circle(10, 80));
    want.push(fill("#FF0000"));
    want.extend(circle(30, 60));
    want.extend(vec![
        stroke("#0000FF"),
        DrawCall::SetLineWidth(2 * UNIT),
        DrawCall::BeginPath,
        DrawCall::MoveTo { x: 10, y: 80 },
        DrawCall::Stroke,
    ]);
    assert_eq!(surface.calls, want);
}

#[test]
fn geometry_that_fails_late_leaves_no_call_behind() {
    let context = square();
    let a = Position::new(Some(10), Some(20));
    let bad = Position::new(Some(10), None);
    let mut surface = Surface::new();
    surface.begin_path();
    let all = Geometry::GeometryCollection(vec![
        Geometry::Point(a),
        Geometry::MultiLineString(vec![vec![a], vec![a, bad]]),
    ]);
    let r = render_geometry(&all, &context, &mut surface);
    assert_eq!(
        r,
        Err(GeoArrowError::Validation(String::from("Geometry has a coordinate that is not finite")))
    );
    assert_eq!(surface.calls, vec![DrawCall::BeginPath]);
    let far = Geometry::MultiPolygon(vec![vec![vec![a]], vec![vec![bad]]]);
    assert!(render_geometry(&far, &context, &mut surface).is_err());
    assert_eq!(surface.calls, vec![DrawCall::BeginPath]);
}

#[test]
fn place_out_of_the_number_range_is_not_finite() {
    let context = RenderContext::new(GeoBounds::new(0, 0, 1, 1), (i64::MAX, i64::MAX), 0, MapStyle::default());
    let p = Position::new(Some(i64::MAX), Some(0));
    assert_eq!(transform_position(&context, &p), (None, Some(i64::MAX)));
    let mut surface = Surface::new();
    assert!(render_geometry(&Geometry::Point(p), &context, &mut surface).is_err());
    assert!(surface.calls.is_empty());
}

#[test]
fn transform_places_positions_like_the_viewport_does() {
    let context = square();
    assert_eq!(transform_position(&context, &Position::new(Some(25), Some(75))), (Some(25), Some(25)));
    assert_eq!(transform_position(&context, &Position::new(None, Some(75))), (None, Some(25)));
    assert_eq!(transform_position(&context, &Position::new(Some(25), None)), (Some(25), None));
    assert_eq!(context.world_to_screen(25, 75), (Some(25), Some(25)));
    let empty = RenderContext::new(GeoBounds::new(0, 0, 0, 0), (100, 100), 0, MapStyle::default());
    assert_eq!(transform_position(&empty, &Position::new(None, None)), (Some(0), Some(0)));
    let places = transform_coordinates(
        &context,
        &vec![Position::new(Some(0), Some(0)), Position::new(Some(100), Some(100)), Position::new(None, None)],
    );
    assert_eq!(places, vec![(Some(0), Some(100)), (Some(100), Some(0)), (None, None)]);
    assert!(transform_coordinates(&context, &vec![]).is_empty());
}

#[test]
fn extractors_answer_only_for_their_shape() {
    let a = Position::new(Some(1), Some(2));
    let b = Position::new(Some(3), Some(4));
    let point = Geometry::Point(a);
    let line = Geometry::LineString(vec![a, b]);
    let polygon = Geometry::Polygon(vec![vec![a, b], vec![b]]);
    let points = Geometry::MultiPoint(vec![b, a]);
    let lines = Geometry::MultiLineString(vec![vec![a], vec![b, a]]);
    let polygons = Geometry::MultiPolygon(vec![vec![vec![a]], vec![]]);
    let collection = Geometry::GeometryCollection(vec![Geometry::Point(a)]);
    assert_eq!(extract_point_coordinates(&point), Some(vec![a]));
    assert_eq!(extract_linestring_coordinates(&line), Some(vec![a, b]));
    assert_eq!(extract_polygon_coordinates(&polygon), Some(vec![vec![a, b], vec![b]]));
    assert_eq!(extract_multipoint_coordinates(&points), Some(vec![b, a]));
    assert_eq!(extract_multilinestring_coordinates(&lines), Some(vec![vec![a], vec![b, a]]));
    assert_eq!(extract_multipolygon_coordinates(&polygons), Some(vec![vec![vec![a]], vec![]]));
    for other in [&line, &polygon, &points, &lines, &polygons, &collection] {
        assert_eq!(extract_point_coordinates(other), None);
    }
    for other in [&point, &polygon, &points, &lines, &polygons, &collection] {
        assert_eq!(extract_linestring_coordinates(other), None);
    }
    for other in [&point, &line, &points, &lines, &polygons, &collection] {
        assert_eq!(extract_polygon_coordinates(other), None);
    }
    for other in [&point, &line, &polygon, &lines, &polygons, &collection] {
        assert_eq!(extract_multipoint_coordinates(other), None);
    }
    for other in [&point, &line, &polygon, &points, &polygons, &collection] {
        assert_eq!(extract_multilinestring_coordinates(other), None);
    }
    for other in [&point, &line, &polygon, &points, &lines, &collection] {
        assert_eq!(extract_multipolygon_coordinates(other), None);
    }
}

#[test]
fn transformers_pick_their_shapes() {
    let context = square();
    let a = Position::new(Some(10), Some(20));
    let b = Position::new(Some(30), Some(40));
    assert_eq!(transform_geometry(&context, &Geometry::Point(a)), Some(vec![(Some(10), Some(80))]));
    assert_eq!(
        transform_geometry(&context, &Geometry::LineString(vec![a, b])),
        Some(vec![(Some(10), Some(80)), (Some(30), Some(60))])
    );
    assert_eq!(transform_geometry(&context, &Geometry::MultiPoint(vec![b])), Some(vec![(Some(30), Some(60))]));
    assert_eq!(transform_geometry(&context, &Geometry::Polygon(vec![vec![a]])), None);
    assert_eq!(transform_geometry(&context, &Geometry::MultiLineString(vec![vec![a]])), None);
    assert_eq!(
        transform_polygon(&context, &Geometry::Polygon(vec![vec![a, b], vec![b]])),
        Some(vec![(Some(10), Some(80)), (Some(30), Some(60))])
    );
    assert_eq!(transform_polygon(&context, &Geometry::Polygon(vec![])), None);
    assert_eq!(transform_polygon(&context, &Geometry::LineString(vec![a])), None);
    assert_eq!(transform_polygon(&context, &Geometry::MultiPolygon(vec![vec![vec![a]]])), None);
}

#[test]
fn validation_asks_for_both_ordinates() {
    assert!(validate_coordinates(&vec![]));
    assert!(validate_coordinates(&vec![(Some(1), Some(2)), (Some(-3), Some(0))]));
    assert!(!validate_coordinates(&vec![(Some(1), Some(2)), (None, Some(0))]));
    assert!(!validate_coordinates(&vec![(Some(1), None)]));
    assert_eq!(finite_coordinates(&vec![(Some(1), Some(2)), (Some(-3), Some(0))]), Some(vec![(1, 2), (-3, 0)]));
    assert_eq!(finite_coordinates(&vec![(Some(1), Some(2)), (None, None)]), None);
    assert_eq!(finite_coordinates(&vec![]), Some(vec![]));
}

#[test]
fn filter_keeps_the_places_on_the_surface() {
    let context = square();
    let coords = vec![
        (Some(0), Some(0)),
        (Some(100), Some(100)),
        (Some(101), Some(50)),
        (Some(50), Some(-1)),
        (None, Some(50)),
        (Some(50), None),
        (Some(50), Some(50)),
    ];
    assert_eq!(
        filter_coordinates_in_bounds(&coords, &context),
        vec![(Some(0), Some(0)), (Some(100), Some(100)), (Some(50), Some(50))]
    );
    assert!(filter_coordinates_in_bounds(&vec![], &context).is_empty());
}

#[test]
fn renderers_issue_the_primitive_calls() {
    let context = square();
    let mut surface = Surface::new();
    render_single_point(7, 9, 11, &mut surface);
    assert_eq!(
        surface.calls,
        vec![
            DrawCall::BeginPath,
            DrawCall::Arc { cx: 7, cy: 9, radius: 11, start_angle: 0, end_angle: 843_314_857 },
            DrawCall::Fill,
        ]
    );
    let mut surface = Surface::new();
    render_points(&vec![], &context, &mut surface);
    assert_eq!(surface.calls, vec![fill("#FF0000")]);
    let mut surface = Surface::new();
    draw_path(&vec![], &mut surface);
    render_linestring(&vec![], &context, &mut surface);
    render_polygon(&vec![], &context, &mut surface);
    assert!(surface.calls.is_empty());
    draw_path(&vec![(1, 2)], &mut surface);
    assert_eq!(surface.calls, vec![DrawCall::BeginPath, DrawCall::MoveTo { x: 1, y: 2 }]);
    let mut surface = Surface::new();
    setup_canvas_context(&mut surface, &context);
    assert_eq!(
        surface.calls,
        vec![fill("rgba(0, 255, 0, 0.3)"), stroke("#00FF00"), DrawCall::SetLineWidth(2 * UNIT)]
    );
    let mut surface = Surface::new();
    clear_canvas(&mut surface, (640, 480));
    draw_background(&mut surface, (640, 480), "#ffffff");
    assert_eq!(
        surface.calls,
        vec![
            DrawCall::ClearRect { x: 0, y: 0, width: 640, height: 480 },
            fill("#ffffff"),
            DrawCall::FillRect { x: 0, y: 0, width: 640, height: 480 },
        ]
    );
}

#[test]
fn grid_has_a_line_at_every_multiple_of_the_spacing() {
    let mut surface = Surface::new();
    draw_grid(&mut surface, (10, 4), 5);
    let line = |x0: i64, y0: i64, x1: i64, y1: i64| {
        vec![
            DrawCall::BeginPath,
            DrawCall::MoveTo { x: x0, y: y0 },
            DrawCall::LineTo { x: x1, y: y1 },
            DrawCall::Stroke,
        ]
    };
    let mut want = vec![stroke("#cccccc"), DrawCall::SetLineWidth(UNIT / 2)];
    want.extend(line(0, 0, 0, 4));
    want.extend(line(5, 0, 5, 4));
    want.extend(line(10, 0, 10, 4));
    want.extend(line(0, 0, 10, 0));
    assert_eq!(surface.calls, want);

    let mut surface = Surface::new();
    draw_grid(&mut surface, (-1, 0), 3);
    let mut want = vec![stroke("#cccccc"), DrawCall::SetLineWidth(UNIT / 2)];
    want.extend(line(0, 0, -1, 0));
    assert_eq!(surface.calls, want);

    let mut surface = Surface::new();
    draw_grid(&mut surface, (i64::MAX, -5), i64::MAX);
    assert_eq!(surface.calls.len(), 2 + 8);
}

#[test]
fn surface_records_calls_in_order() {
    let mut first = Surface::new();
    first.clear(3, 4);
    first.move_to(1, 2);
    let mut second = Surface::new();
    second.line_to(5, 6);
    second.close_path();
    second.stroke();
    first.absorb(second);
    assert_eq!(
        first.calls,
        vec![
            DrawCall::ClearRect { x: 0, y: 0, width: 3, height: 4 },
            DrawCall::MoveTo { x: 1, y: 2 },
            DrawCall::LineTo { x: 5, y: 6 },
            DrawCall::ClosePath,
            DrawCall::Stroke,
        ]
    );
}

#[test]
fn context_clone_keeps_the_style() {
    let mut style = MapStyle::default();
    style.point_color = String::from("#123456");
    style.point_radius = 5 * UNIT;
    let context = RenderContext::new(GeoBounds::new(0, 0, 10, 10), (10, 10), 7, style).clone();
    assert_eq!(context.zoom_level, 7);
    let mut surface = Surface::new();
    render_points(&vec![(1, 2)], &context, &mut surface);
    assert_eq!(surface.calls[0], fill("#123456"));
    assert_eq!(
        surface.calls[2],
        DrawCall::Arc { cx: 1, cy: 2, radius: 5 * UNIT, start_angle: 0, end_angle: FULL_TURN }
    );
}

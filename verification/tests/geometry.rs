use geoarrow_viz::error::GeoArrowError;
use geoarrow_viz::geodata::Geometry;
use geoarrow_viz::geodata::Position;
use geoarrow_viz::model::FeatureGeometry;
use geoarrow_viz::model::GeoBounds;
use geoarrow_viz::model::GeoPoint;

const UNIT: i64 = 134_217_728;

fn deg(v: f64) -> i64 {
    (v * 134_217_728.0).round() as i64
}

fn point(lat: f64, lng: f64) -> GeoPoint {
    GeoPoint::new(deg(lat), deg(lng))
}

fn position(x: f64, y: f64) -> Position {
    Position::new(Some(deg(x)), Some(deg(y)))
}

fn message(r: Result<FeatureGeometry, GeoArrowError>) -> String {
    match r {
        Err(GeoArrowError::Validation(text)) => text,
        other => panic!("expected a rejection, got {:?}", other),
    }
}

#[test]
fn point_validity_includes_the_bounds() {
    assert!(point(90.0, 180.0).is_valid());
    assert!(point(-90.0, -180.0).is_valid());
    assert!(!point(91.0, 0.0).is_valid());
    assert!(!point(0.0, 181.0).is_valid());
    assert!(!point(-91.0, 0.0).is_valid());
    assert!(!point(0.0, -181.0).is_valid());
    assert!(!GeoPoint::new(90 * UNIT + 1, 0).is_valid());
    assert!(!GeoPoint::new(0, -180 * UNIT - 1).is_valid());
    assert!(GeoPoint::new(0, 0).is_valid());
}

#[test]
fn ring_of_three_points_is_no_polygon() {
    let ring = vec![point(0.0, 0.0), point(0.0, 1.0), point(0.0, 0.0)];
    assert!(!FeatureGeometry::Polygon(vec![ring]).is_valid());
}

#[test]
fn open_ring_of_four_points_is_no_polygon() {
    let ring = vec![point(0.0, 0.0), point(0.0, 1.0), point(1.0, 1.0), point(1.0, 0.0)];
    assert!(!FeatureGeometry::Polygon(vec![ring]).is_valid());
}

#[test]
fn closed_ring_of_four_equal_points_is_a_polygon() {
    let ring = vec![point(5.0, 5.0), point(5.0, 5.0), point(5.0, 5.0), point(5.0, 5.0)];
    assert!(FeatureGeometry::Polygon(vec![ring]).is_valid());
}

#[test]
fn closed_ring_with_an_invalid_point_is_no_polygon() {
    let ring = vec![point(0.0, 0.0), point(95.0, 1.0), point(1.0, 1.0), point(0.0, 0.0)];
    assert!(!FeatureGeometry::Polygon(vec![ring]).is_valid());
}

#[test]
fn polygon_needs_every_ring_valid() {
    let outer = vec![point(0.0, 0.0), point(0.0, 9.0), point(9.0, 9.0), point(0.0, 0.0)];
    let hole = vec![point(1.0, 1.0), point(1.0, 2.0), point(2.0, 2.0)];
    assert!(FeatureGeometry::Polygon(vec![outer.clone()]).is_valid());
    assert!(!FeatureGeometry::Polygon(vec![outer, hole]).is_valid());
    assert!(!FeatureGeometry::Polygon(vec![]).is_valid());
}

#[test]
fn validity_of_the_other_shapes() {
    assert!(FeatureGeometry::Point(point(1.0, 2.0)).is_valid());
    assert!(!FeatureGeometry::Point(point(100.0, 2.0)).is_valid());
    assert!(!FeatureGeometry::LineString(vec![]).is_valid());
    assert!(FeatureGeometry::LineString(vec![point(1.0, 2.0)]).is_valid());
    assert!(!FeatureGeometry::LineString(vec![point(1.0, 2.0), point(1.0, 200.0)]).is_valid());
    assert!(!FeatureGeometry::MultiPoint(vec![]).is_valid());
    assert!(FeatureGeometry::MultiPoint(vec![point(1.0, 2.0), point(3.0, 4.0)]).is_valid());
    assert!(!FeatureGeometry::MultiLineString(vec![]).is_valid());
    assert!(!FeatureGeometry::MultiLineString(vec![vec![point(1.0, 2.0)], vec![]]).is_valid());
    assert!(FeatureGeometry::MultiLineString(vec![vec![point(1.0, 2.0)]]).is_valid());
    let ring = vec![point(0.0, 0.0), point(0.0, 1.0), point(1.0, 1.0), point(0.0, 0.0)];
    assert!(!FeatureGeometry::MultiPolygon(vec![]).is_valid());
    assert!(!FeatureGeometry::MultiPolygon(vec![vec![]]).is_valid());
    assert!(FeatureGeometry::MultiPolygon(vec![vec![ring.clone()], vec![ring.clone()]]).is_valid());
    let open = vec![point(0.0, 0.0), point(0.0, 1.0), point(1.0, 1.0), point(1.0, 0.0)];
    assert!(!FeatureGeometry::MultiPolygon(vec![vec![ring], vec![open]]).is_valid());
}

#[test]
fn bounds_of_a_point_are_the_point() {
    let b = FeatureGeometry::Point(point(20.0, 10.0)).calculate_bounds();
    assert_eq!(b, GeoBounds::new(deg(10.0), deg(20.0), deg(10.0), deg(20.0)));
}

#[test]
fn bounds_span_longitudes_in_x_and_latitudes_in_y() {
    let line = FeatureGeometry::LineString(
        vec![point(1.0, 30.0), point(-2.0, 10.0), point(5.0, 20.0)],
    );
    assert_eq!(line.calculate_bounds(), GeoBounds::new(deg(10.0), deg(-2.0), deg(30.0), deg(5.0)));
    let points = FeatureGeometry::MultiPoint(vec![point(1.5, -3.25), point(1.5, -3.25)]);
    assert_eq!(
        points.calculate_bounds(),
        GeoBounds::new(deg(-3.25), deg(1.5), deg(-3.25), deg(1.5))
    );
}

#[test]
fn bounds_of_nested_shapes_cover_every_ring() {
    let outer = vec![point(0.0, 0.0), point(0.0, 9.0), point(9.0, 9.0), point(0.0, 0.0)];
    let hole = vec![point(-1.0, 1.0), point(1.0, 12.0), point(2.0, 2.0), point(-1.0, 1.0)];
    let polygon = FeatureGeometry::Polygon(vec![outer.clone(), hole.clone()]);
    assert_eq!(polygon.calculate_bounds(), GeoBounds::new(0, deg(-1.0), deg(12.0), deg(9.0)));
    let lines = FeatureGeometry::MultiLineString(vec![outer.clone(), vec![], hole.clone()]);
    assert_eq!(lines.calculate_bounds(), GeoBounds::new(0, deg(-1.0), deg(12.0), deg(9.0)));
    let far = vec![point(40.0, -50.0), point(41.0, -51.0), point(42.0, -52.0), point(40.0, -50.0)];
    let multi = FeatureGeometry::MultiPolygon(vec![vec![outer], vec![], vec![hole, far]]);
    assert_eq!(
        multi.calculate_bounds(),
        GeoBounds::new(deg(-52.0), deg(-1.0), deg(12.0), deg(42.0))
    );
}

#[test]
fn bounds_of_a_geometry_without_points_are_empty() {
    let b = FeatureGeometry::LineString(vec![]).calculate_bounds();
    assert_eq!(b, GeoBounds::new(i64::MAX, i64::MAX, i64::MIN, i64::MIN));
    assert!(b.is_empty());
    assert!(!b.intersects(&GeoBounds::new(-10, -10, 10, 10)));
    assert!(FeatureGeometry::MultiPolygon(vec![vec![vec![]]]).calculate_bounds().is_empty());
}

#[test]
fn clone_of_a_geometry_has_the_same_points() {
    let ring = vec![point(0.0, 0.0), point(0.0, 1.0), point(1.0, 1.0), point(0.0, 0.0)];
    let g = FeatureGeometry::MultiPolygon(vec![vec![ring.clone()]]);
    match g.clone() {
        FeatureGeometry::MultiPolygon(polygons) => assert_eq!(polygons, vec![vec![ring]]),
        other => panic!("another shape: {:?}", other),
    }
}

#[test]
fn source_point_becomes_a_point_with_latitude_from_y() {
    let g = Geometry::Point(position(10.0, 20.0));
    match FeatureGeometry::from_geojson_geometry(&g) {
        Ok(FeatureGeometry::Point(p)) => assert_eq!(p, point(20.0, 10.0)),
        other => panic!("unexpected: {:?}", other),
    }
}

#[test]
fn source_shapes_keep_their_structure() {
    let a = position(1.0, 2.0);
    let b = position(3.0, 4.0);
    let pa = point(2.0, 1.0);
    let pb = point(4.0, 3.0);
    match FeatureGeometry::from_geojson_geometry(&Geometry::LineString(vec![a, b])) {
        Ok(FeatureGeometry::LineString(ps)) => assert_eq!(ps, vec![pa, pb]),
        other => panic!("unexpected: {:?}", other),
    }
    match FeatureGeometry::from_geojson_geometry(&Geometry::MultiPoint(vec![b, a])) {
        Ok(FeatureGeometry::MultiPoint(ps)) => assert_eq!(ps, vec![pb, pa]),
        other => panic!("unexpected: {:?}", other),
    }
    match FeatureGeometry::from_geojson_geometry(&Geometry::Polygon(vec![vec![a, b], vec![]])) {
        Ok(FeatureGeometry::Polygon(rings)) => assert_eq!(rings, vec![vec![pa, pb], vec![]]),
        other => panic!("unexpected: {:?}", other),
    }
    match FeatureGeometry::from_geojson_geometry(&Geometry::MultiLineString(vec![vec![a], vec![b]]))
    {
        Ok(FeatureGeometry::MultiLineString(lines)) => assert_eq!(lines, vec![vec![pa], vec![pb]]),
        other => panic!("unexpected: {:?}", other),
    }
    match FeatureGeometry::from_geojson_geometry(
        &Geometry::MultiPolygon(vec![vec![vec![a, b]], vec![]]),
    ) {
        Ok(FeatureGeometry::MultiPolygon(polygons)) => {
            assert_eq!(polygons, vec![vec![vec![pa, pb]], vec![]])
        },
        other => panic!("unexpected: {:?}", other),
    }
}

#[test]
fn rejection_names_the_shape() {
    let good = position(1.0, 2.0);
    let bad = position(1.0, 91.0);
    let missing = Position::new(None, Some(0));
    assert_eq!(
        message(FeatureGeometry::from_geojson_geometry(&Geometry::Point(bad))),
        "Invalid point coordinates"
    );
    assert_eq!(
        message(FeatureGeometry::from_geojson_geometry(&Geometry::Point(missing))),
        "Invalid point coordinates"
    );
    assert_eq!(
        message(FeatureGeometry::from_geojson_geometry(&Geometry::LineString(vec![good, bad]))),
        "Invalid line coordinates"
    );
    assert_eq!(
        message(FeatureGeometry::from_geojson_geometry(&Geometry::Polygon(vec![vec![good], vec![bad]]))),
        "Invalid polygon coordinates"
    );
    assert_eq!(
        message(FeatureGeometry::from_geojson_geometry(&Geometry::MultiPoint(vec![missing]))),
        "Invalid multipoint coordinates"
    );
    assert_eq!(
        message(
            FeatureGeometry::from_geojson_geometry(&Geometry::MultiLineString(vec![vec![bad]])),
        ),
        "Invalid multilinestring coordinates"
    );
    assert_eq!(
        message(
            FeatureGeometry::from_geojson_geometry(
                &Geometry::MultiPolygon(vec![vec![vec![good]], vec![vec![good, bad]]]),
            ),
        ),
        "Invalid multipolygon coordinates"
    );
    assert_eq!(
        FeatureGeometry::from_geojson_geometry(&Geometry::GeometryCollection(vec![])).unwrap_err(),
        GeoArrowError::Serialization(String::from("GeometryCollection not yet supported"))
    );
    assert_eq!(
        FeatureGeometry::from_geojson_geometry(&Geometry::GeometryCollection(vec![Geometry::Point(bad)]))
            .unwrap_err(),
        GeoArrowError::Serialization(String::from("GeometryCollection not yet supported"))
    );
}

#[test]
fn position_with_longitude_out_of_range_is_rejected() {
    let r = FeatureGeometry::from_geojson_geometry(&Geometry::Point(position(180.5, 0.0)));
    assert_eq!(message(r), "Invalid point coordinates");
    let edge = FeatureGeometry::from_geojson_geometry(&Geometry::Point(position(180.0, -90.0)));
    assert!(edge.is_ok());
}

#[test]
fn intersection_of_bounds_is_symmetric_and_strict() {
    let a = GeoBounds::new(0, 0, 10, 10);
    let b = GeoBounds::new(5, 5, 15, 15);
    let c = GeoBounds::new(10, 0, 20, 10);
    let d = GeoBounds::new(3, 3, 4, 4);
    assert!(a.intersects(&b) && b.intersects(&a));
    assert!(!a.intersects(&c) && !c.intersects(&a));
    assert!(a.intersects(&d) && d.intersects(&a));
    assert!(!b.intersects(&d) && !d.intersects(&b));
    assert!(a.contains(10, 10) && a.contains(0, 0) && !a.contains(11, 5) && !a.contains(5, -1));
    assert!(!a.is_empty());
    assert!(GeoBounds::new(0, 0, 0, 10).is_empty());
    assert!(GeoBounds::new(0, 5, 10, 5).is_empty());
    assert!(GeoBounds::new(3, 0, 2, 10).is_empty());
}

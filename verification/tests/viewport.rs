use geoarrow_viz::error::GeoArrowError;
use geoarrow_viz::model::GeoBounds;
use geoarrow_viz::model::GeoPoint;
use geoarrow_viz::model::PixelBounds;
use geoarrow_viz::model::PixelSize;
use geoarrow_viz::model::TileBounds;
use geoarrow_viz::model::Viewport;
use geoarrow_viz::projection::screen_to_world;
use geoarrow_viz::projection::world_to_screen;

const UNIT: i64 = 134_217_728;

fn deg(v: f64) -> i64 {
    (v * 134_217_728.0).round() as i64
}

fn as_real(v: i64) -> f64 {
    v as f64 / 134_217_728.0
}

fn rejection<T: std::fmt::Debug>(r: Result<T, GeoArrowError>) -> String {
    match r {
        Err(GeoArrowError::Validation(text)) => text,
        other => panic!("expected a rejection, got {:?}", other),
    }
}

fn sample() -> Viewport {
    Viewport::new(GeoPoint::new(deg(20.0), deg(10.0)), 15 * UNIT, PixelSize::new(800, 600)).unwrap()
}

#[test]
fn whole_world_at_zoom_zero_needs_one_tile() {
    let viewport = Viewport::new(GeoPoint::new(0, 0), 0, PixelSize::new(256, 256)).unwrap();
    let bounds = viewport.bounds();
    assert_eq!(bounds.min_x, -180 * UNIT);
    assert_eq!(bounds.max_x, 180 * UNIT);
    assert_eq!(bounds.min_y, -90 * UNIT);
    assert_eq!(bounds.max_y, 90 * UNIT);
    assert_eq!(viewport.get_required_tiles(), vec![(0, 0, 0)]);
}

#[test]
fn every_window_at_zoom_zero_needs_the_one_tile() {
    let small = Viewport::new(GeoPoint::new(deg(50.0), deg(-120.0)), UNIT / 2, PixelSize::new(10, 10))
        .unwrap();
    assert_eq!(small.get_required_tiles(), vec![(0, 0, 0)]);
    let huge = Viewport::new(GeoPoint::new(0, 0), 0, PixelSize::new(u32::MAX, u32::MAX)).unwrap();
    assert_eq!(huge.get_required_tiles(), vec![(0, 0, 0)]);
}

#[test]
fn construction_rejects_bad_parts_in_order() {
    let good_center = GeoPoint::new(0, 0);
    let bad_center = GeoPoint::new(deg(91.0), 0);
    let size = PixelSize::new(800, 600);
    assert_eq!(
        rejection(Viewport::new(bad_center, 21 * UNIT, PixelSize::new(0, 0))),
        "Invalid center coordinates"
    );
    assert_eq!(
        rejection(Viewport::new(good_center, 20 * UNIT + 1, PixelSize::new(0, 0))),
        "Zoom must be between 0.0 and 20.0"
    );
    assert_eq!(rejection(Viewport::new(good_center, -1, size)), "Zoom must be between 0.0 and 20.0");
    assert_eq!(
        rejection(Viewport::new(good_center, 0, PixelSize::new(0, 600))),
        "Size dimensions must be greater than 0"
    );
    assert_eq!(
        rejection(Viewport::new(good_center, 0, PixelSize::new(800, 0))),
        "Size dimensions must be greater than 0"
    );
    assert!(Viewport::new(good_center, 20 * UNIT, PixelSize::new(1, 1)).is_ok());
    assert!(Viewport::new(GeoPoint::new(deg(-90.0), deg(180.0)), 0, size).is_ok());
}

#[test]
fn bounds_follow_the_linear_scale() {
    let viewport = sample();
    // Half the width: 400 pixels * 2^-15 * 360/256 degrees.
    let half_width = 400.0 / 32768.0 * 360.0 / 256.0;
    let half_height = 300.0 / 32768.0 * 180.0 / 256.0;
    let b = viewport.bounds();
    assert_eq!(b.min_x, deg(10.0 - half_width));
    assert_eq!(b.max_x, deg(10.0 + half_width));
    assert_eq!(b.min_y, deg(20.0 - half_height));
    assert_eq!(b.max_y, deg(20.0 + half_height));
    assert_eq!(b.max_x - b.min_x, 800 * 90 * 64);
    assert_eq!(b.max_y - b.min_y, 600 * 45 * 64);
    assert_eq!(viewport.pixel_bounds(), PixelBounds::new(0, 0, 800 * UNIT, 600 * UNIT));
    assert_eq!(viewport.center(), GeoPoint::new(deg(20.0), deg(10.0)));
    assert_eq!(viewport.zoom(), 15 * UNIT);
    assert_eq!(viewport.rotation(), 0);
    assert_eq!(viewport.size(), PixelSize::new(800, 600));
}

#[test]
fn fraction_of_the_zoom_does_not_change_the_bounds() {
    let whole = Viewport::new(GeoPoint::new(0, 0), 3 * UNIT, PixelSize::new(512, 512)).unwrap();
    let more = Viewport::new(GeoPoint::new(0, 0), 3 * UNIT + UNIT - 1, PixelSize::new(512, 512))
        .unwrap();
    assert_eq!(whole.bounds(), more.bounds());
    assert_eq!(whole.bounds(), GeoBounds::new(deg(-45.0), deg(-22.5), deg(45.0), deg(22.5)));
}

#[test]
fn center_is_drawn_in_the_middle_and_corners_at_the_corners() {
    let viewport = sample();
    let b = viewport.bounds();
    assert_eq!(
        viewport.world_to_screen(&viewport.center()),
        (Some(400 * UNIT), Some(300 * UNIT))
    );
    assert_eq!(viewport.world_to_screen(&GeoPoint::new(b.max_y, b.min_x)), (Some(0), Some(0)));
    assert_eq!(
        viewport.world_to_screen(&GeoPoint::new(b.min_y, b.max_x)),
        (Some(800 * UNIT), Some(600 * UNIT))
    );
}

#[test]
fn vertical_axis_is_flipped() {
    let viewport = sample();
    let north = GeoPoint::new(deg(20.001), deg(10.0));
    let south = GeoPoint::new(deg(19.999), deg(10.0));
    let (_, y_north) = viewport.world_to_screen(&north);
    let (_, y_south) = viewport.world_to_screen(&south);
    assert!(y_north.unwrap() < 300 * UNIT);
    assert!(y_south.unwrap() > 300 * UNIT);
}

#[test]
fn place_on_the_surface_matches_the_interpolation_in_reals() {
    let viewport = sample();
    let b = viewport.bounds();
    let p = GeoPoint::new(deg(20.003), deg(9.995));
    let (x, y) = viewport.world_to_screen(&p);
    let want_x = (as_real(p.lng) - as_real(b.min_x)) / (as_real(b.max_x) - as_real(b.min_x)) * 800.0;
    let want_y = 600.0 - (as_real(p.lat) - as_real(b.min_y)) / (as_real(b.max_y) - as_real(b.min_y)) * 600.0;
    assert!((as_real(x.unwrap()) - want_x).abs() < 1e-6);
    assert!((as_real(y.unwrap()) - want_y).abs() < 1e-6);
}

#[test]
fn point_outside_the_window_lands_outside_the_surface() {
    let viewport = sample();
    let (x, y) = viewport.world_to_screen(&GeoPoint::new(deg(-80.0), deg(-170.0)));
    assert!(x.unwrap() < 0);
    assert!(y.unwrap() > 600 * UNIT);
}

#[test]
fn place_beyond_the_number_range_is_none() {
    let viewport = Viewport::new(GeoPoint::new(0, 0), 20 * UNIT, PixelSize::new(1, 1)).unwrap();
    let (x, y) = viewport.world_to_screen(&GeoPoint::new(i64::MIN, i64::MAX));
    assert_eq!(x, None);
    assert_eq!(y, None);
    assert_eq!(
        viewport.screen_to_world(i64::MAX, 0),
        Some(GeoPoint::new(45, (((i64::MAX as i128) * 180) >> 27) as i64 - 90))
    );
    let wide = Viewport::new(GeoPoint::new(0, 0), 0, PixelSize::new(u32::MAX, u32::MAX)).unwrap();
    assert_eq!(wide.screen_to_world(i64::MAX, 0), None);
    assert!(wide.screen_to_world(0, i64::MIN).is_some());
}

#[test]
fn surface_point_goes_to_the_world_and_back() {
    let viewport = sample();
    for (x, y) in [(0, 0), (400 * UNIT, 300 * UNIT), (800 * UNIT, 600 * UNIT), (123_456_789, 987_654_321)]
    {
        let p = viewport.screen_to_world(x, y).unwrap();
        assert!(viewport.bounds().contains(p.lng, p.lat));
        let (bx, by) = viewport.world_to_screen(&p);
        let (bx, by) = (bx.unwrap(), by.unwrap());
        // One geographic unit is 2^27 / (90 * 64) pixel units wide at zoom 15.
        assert!(x - bx >= 0 && x - bx <= UNIT / 5760 + 1);
        assert!(by - y >= 0 && by - y <= UNIT / 5760 + 1);
    }
}

#[test]
fn world_point_goes_to_the_surface_and_back() {
    let viewport = sample();
    let p = GeoPoint::new(deg(20.002), deg(10.004));
    let (x, y) = viewport.world_to_screen(&p);
    let back = viewport.screen_to_world(x.unwrap(), y.unwrap()).unwrap();
    assert!(p.lng - back.lng >= 0 && p.lng - back.lng <= 1);
    assert!(p.lat - back.lat >= 0 && p.lat - back.lat <= 1);
    assert_eq!(viewport.screen_to_world(400 * UNIT, 300 * UNIT), Some(viewport.center()));
}

#[test]
fn changes_recompute_the_bounds() {
    let mut viewport = sample();
    viewport.pan(GeoPoint::new(deg(-30.0), deg(40.0))).unwrap();
    let width = viewport.bounds().max_x - viewport.bounds().min_x;
    assert_eq!(viewport.center(), GeoPoint::new(deg(-30.0), deg(40.0)));
    assert_eq!(viewport.bounds().min_x + width / 2, deg(40.0));
    assert_eq!(width, 800 * 90 * 64);

    viewport.zoom_to(14 * UNIT).unwrap();
    assert_eq!(viewport.zoom(), 14 * UNIT);
    assert_eq!(viewport.bounds().max_x - viewport.bounds().min_x, 800 * 90 * 128);
    assert_eq!(viewport.bounds().max_y - viewport.bounds().min_y, 600 * 45 * 128);

    viewport.resize(PixelSize::new(400, 300)).unwrap();
    assert_eq!(viewport.size(), PixelSize::new(400, 300));
    assert_eq!(viewport.pixel_bounds(), PixelBounds::new(0, 0, 400 * UNIT, 300 * UNIT));
    assert_eq!(viewport.bounds().max_x - viewport.bounds().min_x, 400 * 90 * 128);

    let before = viewport.bounds();
    viewport.rotate(deg(1.5));
    assert_eq!(viewport.rotation(), deg(1.5));
    assert_eq!(viewport.bounds(), before);
}

#[test]
fn rejected_changes_leave_the_viewport_as_it_was() {
    let mut viewport = sample();
    let bounds = viewport.bounds();
    assert_eq!(rejection(viewport.pan(GeoPoint::new(0, deg(181.0)))), "Invalid center coordinates");
    assert_eq!(rejection(viewport.zoom_to(deg(20.5))), "Zoom must be between 0.0 and 20.0");
    assert_eq!(rejection(viewport.zoom_to(-UNIT)), "Zoom must be between 0.0 and 20.0");
    assert_eq!(
        rejection(viewport.resize(PixelSize::new(0, 10))),
        "Size dimensions must be greater than 0"
    );
    assert_eq!(
        rejection(viewport.resize(PixelSize::new(10, 0))),
        "Size dimensions must be greater than 0"
    );
    assert_eq!(viewport.bounds(), bounds);
    assert_eq!(viewport.center(), GeoPoint::new(deg(20.0), deg(10.0)));
    assert_eq!(viewport.zoom(), 15 * UNIT);
    assert_eq!(viewport.size(), PixelSize::new(800, 600));
}

#[test]
fn required_tiles_are_the_product_of_columns_and_rows() {
    // 512 x 512 pixels at zoom 2 around the origin: 90 degrees to each side in
    // longitude and 45 in latitude, of a grid of 4 x 4 tiles.
    let viewport = Viewport::new(GeoPoint::new(0, 0), 2 * UNIT, PixelSize::new(512, 512)).unwrap();
    assert_eq!(viewport.bounds(), GeoBounds::new(deg(-90.0), deg(-45.0), deg(90.0), deg(45.0)));
    assert_eq!(
        viewport.get_required_tiles(),
        vec![(1, 1, 2), (1, 2, 2), (1, 3, 2), (2, 1, 2), (2, 2, 2), (2, 3, 2), (3, 1, 2), (3, 2, 2), (3, 3, 2)]
    );
}

#[test]
fn required_tiles_stay_within_the_grid() {
    let viewport = Viewport::new(GeoPoint::new(deg(89.0), deg(179.0)), 3 * UNIT, PixelSize::new(4000, 4000))
        .unwrap();
    let tiles = viewport.get_required_tiles();
    assert_eq!(tiles.len(), 64);
    assert_eq!(tiles[0], (0, 0, 3));
    assert_eq!(tiles[1], (0, 1, 3));
    assert_eq!(tiles[63], (7, 7, 3));
    assert!(tiles.iter().all(|t| t.0 < 8 && t.1 < 8 && t.2 == 3));
}

#[test]
fn required_tiles_of_a_small_window() {
    let viewport = sample();
    let tiles = viewport.get_required_tiles();
    // Column: (10 + 180) / 360 * 2^15 = 17294.2; row: (1 - (20 + 90) / 180) * 2^15 = 12743.1.
    assert!(tiles.contains(&(17294, 12743, 15)));
    assert!(tiles.iter().all(|t| t.2 == 15 && t.0 >= 17292 && t.0 <= 17297 && t.1 >= 12741 && t.1 <= 12745));
    let columns: Vec<u32> = tiles.iter().map(|t| t.0).collect();
    let mut sorted = columns.clone();
    sorted.sort();
    assert_eq!(columns, sorted);
}

#[test]
fn tile_bounds_divide_the_unit_square() {
    assert_eq!(TileBounds::from_tile_coords(0, 0, 0), TileBounds::new(0, 0, UNIT, UNIT));
    assert_eq!(
        TileBounds::from_tile_coords(1, 3, 2),
        TileBounds::new(UNIT / 4, 3 * UNIT / 4, UNIT / 2, UNIT)
    );
    assert_eq!(
        TileBounds::from_tile_coords(1_048_575, 0, 20),
        TileBounds::new(1_048_575 * 128, 0, UNIT, 128)
    );
    assert_eq!(
        TileBounds::from_tile_coords(0, 0, 0).to_geo_bounds(),
        Some(GeoBounds::new(-180 * UNIT, -90 * UNIT, 180 * UNIT, 90 * UNIT))
    );
    assert_eq!(
        TileBounds::from_tile_coords(1, 0, 1).to_geo_bounds(),
        Some(GeoBounds::new(0, 0, 180 * UNIT, 90 * UNIT))
    );
    assert_eq!(TileBounds::new(i64::MAX, 0, i64::MAX, 0).to_geo_bounds(), None);
}

#[test]
fn extent_of_pixel_bounds() {
    let b = PixelBounds::new(10, 20, 110, 70);
    assert_eq!(b.width(), Some(100));
    assert_eq!(b.height(), Some(50));
    assert_eq!(PixelBounds::new(5, 5, 1, 2).width(), Some(-4));
    assert_eq!(PixelBounds::new(i64::MIN, 0, i64::MAX, 0).width(), None);
    assert_eq!(PixelBounds::new(0, i64::MAX, 0, i64::MIN).height(), None);
}

#[test]
fn projection_on_arbitrary_bounds() {
    let b = GeoBounds::new(-100, -50, 100, 50);
    assert_eq!(world_to_screen(&b, 400, 200, &GeoPoint::new(0, 0)), (Some(200), Some(100)));
    assert_eq!(world_to_screen(&b, 400, 200, &GeoPoint::new(50, -100)), (Some(0), Some(0)));
    assert_eq!(world_to_screen(&b, 400, 200, &GeoPoint::new(-50, 100)), (Some(400), Some(200)));
    // Rounded down: (1 + 100) * 3 / 200 = 1.515, and 3 - (2 + 50) * 3 / 100 = 3 - 1.56.
    assert_eq!(world_to_screen(&b, 3, 3, &GeoPoint::new(2, 1)), (Some(1), Some(2)));
    // Left of the bounds the quotient is rounded down too: -3 * 3 / 200 = -0.045.
    assert_eq!(world_to_screen(&b, 3, 3, &GeoPoint::new(-50, -103)), (Some(-1), Some(3)));
    let empty = GeoBounds::new(5, 5, 5, 9);
    assert_eq!(world_to_screen(&empty, 400, 200, &GeoPoint::new(7, 7)), (Some(0), Some(0)));
    assert_eq!(screen_to_world(&b, 400, 200, 200, 100), Some(GeoPoint::new(0, 0)));
    assert_eq!(screen_to_world(&b, 400, 200, 0, 0), Some(GeoPoint::new(50, -100)));
    assert_eq!(screen_to_world(&b, 400, 200, 400, 200), Some(GeoPoint::new(-50, 100)));
    assert_eq!(screen_to_world(&b, 0, 200, 1, 1), None);
    assert_eq!(screen_to_world(&b, 400, -1, 1, 1), None);
    let wide = GeoBounds::new(i64::MIN, i64::MIN, i64::MAX, i64::MAX);
    assert_eq!(screen_to_world(&wide, 1, 1, i64::MAX, i64::MIN), None);
    assert_eq!(screen_to_world(&wide, 2, 2, 1, 1), Some(GeoPoint::new(-1, -1)));
}

#[test]
fn required_tiles_cover_what_the_window_shows_of_the_world() {
    let views = [
        Viewport::new(GeoPoint::new(deg(20.0), deg(10.0)), 15 * UNIT, PixelSize::new(800, 600)).unwrap(),
        Viewport::new(GeoPoint::new(deg(89.9), deg(-179.9)), 4 * UNIT, PixelSize::new(300, 200)).unwrap(),
        Viewport::new(GeoPoint::new(deg(-90.0), deg(180.0)), 20 * UNIT, PixelSize::new(64, 64)).unwrap(),
        Viewport::new(GeoPoint::new(0, 0), UNIT, PixelSize::new(1000, 1000)).unwrap(),
    ];
    for viewport in views.iter() {
        let b = viewport.bounds();
        let tiles = viewport.get_required_tiles();
        for i in 0..=4i64 {
            for j in 0..=4i64 {
                let lng = b.min_x + (b.max_x - b.min_x) / 4 * i;
                let lat = b.min_y + (b.max_y - b.min_y) / 4 * j;
                let p = GeoPoint::new(lat, lng);
                if !p.is_valid() {
                    continue;
                }
                let covered = tiles.iter().any(|t| {
                    TileBounds::from_tile_coords(t.0, t.1, t.2)
                        .to_geo_bounds()
                        .map_or(false, |square| square.contains(lng, lat))
                });
                assert!(covered, "({}, {}) is not covered", lng, lat);
            }
        }
    }
}

#[test]
fn extent_of_the_window_is_a_whole_number_of_units() {
    for level in 0..=20i64 {
        let viewport = Viewport::new(GeoPoint::new(0, 0), level * UNIT, PixelSize::new(7, 3)).unwrap();
        let b = viewport.bounds();
        assert_eq!(b.max_x, 7 * 45 * (1 << (21 - level)));
        assert_eq!(b.min_x, -b.max_x);
        assert_eq!(b.max_y, 3 * 45 * (1 << (20 - level)));
        assert_eq!(b.min_y, -b.max_y);
    }
}

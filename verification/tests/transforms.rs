use geoarrow_viz::engine::transforms::apply_pan_transform;
use geoarrow_viz::engine::transforms::apply_zoom_transform;
use geoarrow_viz::engine::transforms::bounds_center;
use geoarrow_viz::engine::transforms::bounds_size;
use geoarrow_viz::engine::transforms::calculate_bounds_from_coordinates;
use geoarrow_viz::engine::transforms::calculate_viewport_bounds;
use geoarrow_viz::engine::transforms::expand_bounds;
use geoarrow_viz::engine::transforms::fit_bounds_to_viewport;
use geoarrow_viz::engine::transforms::preserve_aspect_ratio;
use geoarrow_viz::engine::transforms::screen_to_world;
use geoarrow_viz::model::Bounds;
use geoarrow_viz::model::GeoBounds;

const UNIT: i64 = 134_217_728;

#[test]
fn zoom_scales_by_a_power_of_two() {
    assert_eq!(apply_zoom_transform(3, -5, 0), (Some(3), Some(-5)));
    assert_eq!(apply_zoom_transform(3, -5, 4), (Some(48), Some(-80)));
    assert_eq!(apply_zoom_transform(1, -1, 62), (Some(1 << 62), Some(-(1 << 62))));
    assert_eq!(apply_zoom_transform(1, -1, 63), (None, Some(i64::MIN)));
    assert_eq!(apply_zoom_transform(0, 1, 200), (Some(0), None));
    assert_eq!(apply_zoom_transform(0, -1, 64), (Some(0), None));
}

#[test]
fn pan_adds_the_offset() {
    assert_eq!(apply_pan_transform(10, 20, -3, 4), (Some(7), Some(24)));
    assert_eq!(apply_pan_transform(i64::MAX, i64::MIN, 1, -1), (None, None));
    assert_eq!(apply_pan_transform(i64::MAX, i64::MIN, 0, 0), (Some(i64::MAX), Some(i64::MIN)));
}

#[test]
fn window_around_a_center() {
    assert_eq!(
        calculate_viewport_bounds((100, 200), (64, 32), 0),
        Some(Bounds::new(68, 184, 132, 216))
    );
    assert_eq!(
        calculate_viewport_bounds((100, 200), (64, 32), 3),
        Some(Bounds::new(96, 198, 104, 202))
    );
    // 7 / 4 and 5 / 4 are rounded down to 1.
    assert_eq!(calculate_viewport_bounds((0, 0), (7, 5), 1), Some(Bounds::new(-1, -1, 1, 1)));
    // A negative extent is rounded down too: -1 / 2^64 is -1.
    assert_eq!(calculate_viewport_bounds((0, 0), (-1, 1), 63), Some(Bounds::new(1, 0, -1, 0)));
    assert_eq!(calculate_viewport_bounds((0, 0), (i64::MAX, 1), 255), Some(Bounds::new(0, 0, 0, 0)));
    assert_eq!(calculate_viewport_bounds((i64::MAX, 0), (2, 2), 0), None);
}

#[test]
fn expansion_grows_each_side_by_half_the_factor() {
    let b = GeoBounds::new(0, 0, 100, 40);
    assert_eq!(expand_bounds(&b, UNIT), Some(GeoBounds::new(-50, -20, 150, 60)));
    assert_eq!(expand_bounds(&b, UNIT / 2), Some(GeoBounds::new(-25, -10, 125, 50)));
    assert_eq!(expand_bounds(&b, 0), Some(b));
    assert_eq!(expand_bounds(&b, -UNIT / 2), Some(GeoBounds::new(25, 10, 75, 30)));
    assert_eq!(expand_bounds(&GeoBounds::new(i64::MIN, 0, i64::MAX, 1), UNIT), None);
}

#[test]
fn center_and_size_of_bounds() {
    let b = GeoBounds::new(-10, 4, 30, 9);
    assert_eq!(bounds_center(&b), (10, 6));
    assert_eq!(bounds_size(&b), (Some(40), Some(5)));
    assert_eq!(bounds_center(&GeoBounds::new(-3, -3, 0, -2)), (-2, -3));
    assert_eq!(bounds_center(&GeoBounds::new(i64::MIN, i64::MAX, i64::MIN, i64::MAX)), (i64::MIN, i64::MAX));
    assert_eq!(bounds_size(&GeoBounds::new(i64::MIN, 5, i64::MAX, 1)), (None, Some(-4)));
}

#[test]
fn aspect_ratio_grows_the_short_side() {
    // 200 x 50 is wider than 2 : 1, so the height grows to 100.
    assert_eq!(
        preserve_aspect_ratio(&GeoBounds::new(0, 0, 200, 50), 2 * UNIT),
        Some(GeoBounds::new(0, -25, 200, 75))
    );
    // 50 x 200 is taller than 2 : 1, so the width grows to 400.
    assert_eq!(
        preserve_aspect_ratio(&GeoBounds::new(0, 0, 50, 200), 2 * UNIT),
        Some(GeoBounds::new(-175, 0, 225, 200))
    );
    assert_eq!(
        preserve_aspect_ratio(&GeoBounds::new(0, 0, 200, 100), 2 * UNIT),
        Some(GeoBounds::new(0, 0, 200, 100))
    );
    assert_eq!(preserve_aspect_ratio(&GeoBounds::new(0, 0, 0, 100), UNIT), None);
    assert_eq!(preserve_aspect_ratio(&GeoBounds::new(0, 0, 100, 0), UNIT), None);
    assert_eq!(preserve_aspect_ratio(&GeoBounds::new(0, 0, 100, 100), 0), None);
    assert_eq!(preserve_aspect_ratio(&GeoBounds::new(0, 0, 100, 100), -UNIT), None);
    assert_eq!(preserve_aspect_ratio(&GeoBounds::new(0, i64::MIN + 1, i64::MAX, i64::MIN + 2), 1), None);
}

#[test]
fn surface_place_to_world_position() {
    let b = GeoBounds::new(-100, -50, 100, 50);
    assert_eq!(screen_to_world((200, 100), (400, 200), &b), Some((0, 0)));
    assert_eq!(screen_to_world((0, 0), (400, 200), &b), Some((-100, 50)));
    assert_eq!(screen_to_world((400, 200), (400, 200), &b), Some((100, -50)));
    assert_eq!(screen_to_world((1, 1), (0, 200), &b), None);
}

#[test]
fn bounds_of_coordinates() {
    assert_eq!(calculate_bounds_from_coordinates(&vec![]), None);
    assert_eq!(calculate_bounds_from_coordinates(&vec![(3, -4)]), Some(GeoBounds::new(3, -4, 3, -4)));
    assert_eq!(
        calculate_bounds_from_coordinates(&vec![(3, -4), (-7, 10), (5, 0)]),
        Some(GeoBounds::new(-7, -4, 5, 10))
    );
    assert_eq!(
        calculate_bounds_from_coordinates(&vec![(i64::MAX, i64::MIN), (i64::MIN, i64::MAX)]),
        Some(GeoBounds::new(i64::MIN, i64::MIN, i64::MAX, i64::MAX))
    );
}

#[test]
fn fitting_picks_the_deepest_level_that_shows_all_data() {
    let data = GeoBounds::new(10, 20, 110, 70);
    // 800 / 100 = 8 and 600 / 50 = 12: the data fits 8 times, that is at level 3.
    assert_eq!(fit_bounds_to_viewport(&data, (800, 600)), (3, (60, 45)));
    assert_eq!(fit_bounds_to_viewport(&data, (799, 600)), (2, (60, 45)));
    assert_eq!(fit_bounds_to_viewport(&data, (800, 399)), (2, (60, 45)));
    // Less than twice: level 1 is the least.
    assert_eq!(fit_bounds_to_viewport(&data, (150, 600)), (1, (60, 45)));
    assert_eq!(fit_bounds_to_viewport(&data, (1, 1)), (1, (60, 45)));
    // More than 2^20 times: level 20 is the most.
    assert_eq!(fit_bounds_to_viewport(&data, (i64::MAX, i64::MAX)), (20, (60, 45)));
    assert_eq!(fit_bounds_to_viewport(&data, (100 << 20, 50 << 20)), (20, (60, 45)));
    assert_eq!(fit_bounds_to_viewport(&data, ((100 << 20) - 1, 50 << 20)), (19, (60, 45)));
    // Data without extent fits at every level.
    assert_eq!(fit_bounds_to_viewport(&GeoBounds::new(5, 5, 5, 5), (1, 1)), (20, (5, 5)));
}

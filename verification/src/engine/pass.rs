//! The render pass: drawing the features of the tiles that a viewport
//! needs, as far as they are loaded.
//!
//! A pass never waits. A loaded tile is drawn; a tile that is still loading
//! or failed to load counts as empty in this frame; a tile that is not
//! loaded, or not yet in the cache, is marked as loading and named in the
//! report, so that the host can start its load.

use vstd::prelude::*;
use crate::engine::render_geometry;
use crate::engine::spec_drawn;
use crate::engine::spec_geometry_calls;
use crate::engine::spec_line_part;
use crate::engine::spec_line_parts;
use crate::engine::spec_not_finite_message;
use crate::engine::spec_points_part;
use crate::engine::spec_polygon_part;
use crate::engine::spec_polygon_parts;
use crate::engine::spec_reported;
use crate::engine::spec_sequence;
use crate::engine::spec_skipped;
use crate::engine::surface::DrawOp;
use crate::engine::surface::Surface;
use crate::engine::tiles::CacheModel;
use crate::engine::tiles::TileCache;
use crate::engine::tiles::TileId;
use crate::engine::ContextModel;
use crate::engine::FeatureFailure;
use crate::engine::RenderContext;
use crate::error::GeoArrowError;
use crate::geodata::Geometry;
use crate::model::feature::FeatureModel;
use crate::model::feature::GeoFeature;
use crate::model::geometry::position_lists_of;
use crate::model::geometry::position_of;
use crate::model::geometry::position_polygons_of;
use crate::model::geometry::positions_of;
use crate::model::geometry::source_of;
use crate::model::geometry::FeatureGeometry;
use crate::model::geometry::Shape;
use crate::model::tile::StatusModel;
use crate::model::tile::Tile;
use crate::model::tile::TileModel;
use crate::model::tile::TileStatus;
use crate::model::viewport::Viewport;
use crate::model::viewport::ViewportState;

verus! {

/// The calls that draw a geometry of the model: those of the source
/// geometry with the same shape and positions.
pub open spec fn spec_shape_calls(context: ContextModel, shape: Shape) -> Option<Seq<DrawOp>> {
    match shape {
        Shape::Point(p) => spec_points_part(context, seq![position_of(p)]),
        Shape::MultiPoint(ps) => spec_points_part(context, positions_of(ps)),
        Shape::LineString(ps) => spec_line_part(context, positions_of(ps)),
        Shape::MultiLineString(lines) => spec_sequence(
            spec_line_parts(context, position_lists_of(lines)),
        ),
        Shape::Polygon(rings) => spec_polygon_part(context, position_lists_of(rings)),
        Shape::MultiPolygon(polygons) => spec_sequence(
            spec_polygon_parts(context, position_polygons_of(polygons)),
        ),
    }
}

/// A geometry of the model is drawn like its source form.
pub proof fn lemma_shape_calls(context: ContextModel, g: &Geometry, shape: Shape)
    requires
        source_of(g, shape),
    ensures
        spec_geometry_calls(context, g) == spec_shape_calls(context, shape),
{
}

/// Draws a geometry of the model, by its shape. A geometry with a point
/// that has no finite place on the surface is not drawn at all, and the
/// error says so.
pub fn render_feature_geometry(geometry: &FeatureGeometry, context: &RenderContext, surface: &mut Surface) -> (r:
    Result<(), GeoArrowError>)
    ensures
        match spec_shape_calls(context@, geometry@) {
            Some(calls) => r.is_ok() && final(surface)@ == old(surface)@ + calls,
            None => r.is_err() && r.unwrap_err().is_validation(spec_not_finite_message())
                && final(surface)@ == old(surface)@,
        },
{
    let source: Geometry = geometry.to_geojson_geometry();
    proof {
        lemma_shape_calls(context@, &source, geometry@);
    }
    render_geometry(&source, context, surface)
}

/// The calls of each feature of a list of features of the model.
pub open spec fn spec_model_parts(context: ContextModel, features: Seq<FeatureModel>) -> Seq<
    Option<Seq<DrawOp>>,
> {
    Seq::new(features.len(), |i: int| spec_shape_calls(context, features[i].geometry))
}

/// The features that a tile shows in a frame: its own where it is loaded,
/// none where it is not loaded, still loading or failed to load.
pub open spec fn spec_visible_features(tile: TileModel) -> Seq<FeatureModel> {
    if tile.status is Loaded {
        tile.features
    } else {
        Seq::empty()
    }
}

/// The calls that draw a tile: those of each of its visible features that
/// can be drawn, in order.
pub open spec fn spec_tile_calls(context: ContextModel, tile: TileModel) -> Seq<DrawOp> {
    spec_drawn(spec_model_parts(context, spec_visible_features(tile)))
}

/// The places of the visible features of a tile that cannot be drawn.
pub open spec fn spec_tile_failures(context: ContextModel, tile: TileModel) -> Seq<int> {
    spec_skipped(spec_model_parts(context, spec_visible_features(tile)))
}

/// Draws the features of a tile in order, where the tile is loaded. A
/// feature that cannot be drawn is skipped and reported with its place in
/// the tile.
pub fn render_tile(tile: &Tile, context: &RenderContext, surface: &mut Surface) -> (failures: Vec<
    FeatureFailure,
>)
    ensures
        final(surface)@ == old(surface)@ + spec_tile_calls(context@, tile@),
        spec_reported(failures@, spec_tile_failures(context@, tile@)),
{
    let mut failures: Vec<FeatureFailure> = Vec::new();
    let loaded: bool = match &tile.status {
        TileStatus::Loaded => true,
        _ => false,
    };
    if !loaded {
        assert(surface@ =~= old(surface)@ + Seq::<DrawOp>::empty());
        return failures;
    }
    let ghost parts = spec_model_parts(context@, tile@.features);
    let mut i: usize = 0;
    assert(parts.take(0) =~= Seq::empty());
    assert(surface@ =~= old(surface)@ + Seq::<DrawOp>::empty());
    while i < tile.features.len()
        invariant
            i <= tile.features.len(),
            parts == spec_model_parts(context@, tile@.features),
            parts.len() == tile.features@.len(),
            surface@ == old(surface)@ + spec_drawn(parts.take(i as int)),
            spec_reported(failures@, spec_skipped(parts.take(i as int))),
        decreases tile.features.len() - i,
    {
        proof {
            let next = parts.take(i + 1);
            assert(next.drop_last() =~= parts.take(i as int));
            assert(tile@.features[i as int] == tile.features@[i as int]@);
            assert(next.last() == spec_shape_calls(context@, tile.features@[i as int]@.geometry));
        }
        match render_feature_geometry(&tile.features[i].geometry, context, surface) {
            Ok(_) => {
                proof {
                    let calls = spec_shape_calls(
                        context@,
                        tile.features@[i as int]@.geometry,
                    ).unwrap();
                    assert(surface@ =~= old(surface)@ + (spec_drawn(parts.take(i as int)) + calls));
                }
            },
            Err(error) => {
                failures.push(FeatureFailure { index: i, error });
                proof {
                    assert(surface@ =~= old(surface)@ + (spec_drawn(parts.take(i as int))
                        + Seq::<DrawOp>::empty()));
                }
            },
        }
        i += 1;
    }
    assert(parts.take(i as int) =~= parts);
    failures
}

/// A feature of a tile that was not drawn in a pass.
#[derive(Debug)]
pub struct TileFailure {
    pub tile: TileId,
    pub index: usize,
    pub error: GeoArrowError,
}

/// What a pass leaves to the host: the tiles whose load it is to start, in
/// the order in which the pass met them, and the features that could not
/// be drawn.
#[derive(Debug)]
pub struct PassReport {
    pub load_requests: Vec<TileId>,
    pub failures: Vec<TileFailure>,
}

/// The state of a pass: the cache, the calls made, the loads asked for and
/// the features that could not be drawn, as tile and place in the tile.
pub struct PassModel {
    pub cache: CacheModel,
    pub calls: Seq<DrawOp>,
    pub requests: Seq<TileId>,
    pub failures: Seq<(TileId, int)>,
}

/// A tile that is being loaded for the first time.
pub open spec fn spec_pending(id: TileId, now: u64) -> TileModel {
    TileModel { status: StatusModel::Loading, ..TileModel::fresh(id.x, id.y, id.z, now) }
}

/// What a pass does at one tile at the time `now`.
///
/// A tile in the cache is looked up, which makes it the most recently used
/// one. Where it is loaded its features are drawn. Where it is not loaded
/// it is marked as loading and its load is asked for. Where it is loading
/// or failed to load nothing is drawn. A tile that is not in the cache and
/// lies in the grid is put there as loading, and its load is asked for; an
/// identifier outside the grid is passed over.
pub open spec fn spec_pass_step(state: PassModel, context: ContextModel, id: TileId, now: u64)
    -> PassModel {
    match state.cache.position(id) {
        Some(i) => {
            let tile = TileModel { last_accessed: now, ..state.cache.entries[i].1 };
            let touched = state.cache.looked_up(id, now);
            if tile.status is Loaded {
                let skipped = spec_tile_failures(context, tile);
                PassModel {
                    cache: touched,
                    calls: state.calls + spec_tile_calls(context, tile),
                    requests: state.requests,
                    failures: state.failures + Seq::new(skipped.len(), |k: int| (id, skipped[k])),
                }
            } else if tile.status is NotLoaded {
                PassModel {
                    cache: touched.inserted(
                        id,
                        TileModel { status: StatusModel::Loading, ..tile },
                    ),
                    calls: state.calls,
                    requests: state.requests.push(id),
                    failures: state.failures,
                }
            } else {
                PassModel { cache: touched, ..state }
            }
        },
        None => if id.spec_is_valid() {
            PassModel {
                cache: state.cache.inserted(id, spec_pending(id, now)),
                calls: state.calls,
                requests: state.requests.push(id),
                failures: state.failures,
            }
        } else {
            state
        },
    }
}

/// What a pass does at a list of tiles, in the order of the list.
pub open spec fn spec_pass(
    state: PassModel,
    context: ContextModel,
    tiles: Seq<(u32, u32, u8)>,
    now: u64,
) -> PassModel
    decreases tiles.len(),
{
    if tiles.len() == 0 {
        state
    } else {
        let t = tiles.last();
        spec_pass_step(
            spec_pass(state, context, tiles.drop_last(), now),
            context,
            TileId { x: t.0, y: t.1, z: t.2 },
            now,
        )
    }
}

/// The reported failures name the given tiles and places, each with the
/// error for a geometry that cannot be drawn.
pub open spec fn spec_tiles_reported(failures: Seq<TileFailure>, places: Seq<(TileId, int)>) -> bool {
    &&& failures.len() == places.len()
    &&& forall|k: int|
        0 <= k < failures.len() ==> (#[trigger] failures[k]).tile == places[k].0
            && failures[k].index == places[k].1 && failures[k].error.is_validation(
            spec_not_finite_message(),
        )
}

/// Adds the failures of one tile to those of the pass.
fn note_failures(all: &mut Vec<TileFailure>, id: TileId, of_tile: &Vec<FeatureFailure>, Ghost(
    before,
): Ghost<Seq<(TileId, int)>>, Ghost(skipped): Ghost<Seq<int>>)
    requires
        spec_tiles_reported(old(all)@, before),
        spec_reported(of_tile@, skipped),
    ensures
        spec_tiles_reported(
            final(all)@,
            before + Seq::new(skipped.len(), |k: int| (id, skipped[k])),
        ),
{
    let ghost added = Seq::new(skipped.len(), |k: int| (id, skipped[k]));
    let mut i: usize = 0;
    assert(before + added.take(0) =~= before);
    while i < of_tile.len()
        invariant
            i <= of_tile.len(),
            spec_reported(of_tile@, skipped),
            added == Seq::new(skipped.len(), |k: int| (id, skipped[k])),
            spec_tiles_reported(all@, before + added.take(i as int)),
        decreases of_tile.len() - i,
    {
        let failure: &FeatureFailure = &of_tile[i];
        let ghost so_far = all@;
        all.push(TileFailure { tile: id, index: failure.index, error: failure.error.clone() });
        proof {
            let places = before + added.take(i + 1);
            assert(places.len() == all@.len());
            assert forall|k: int| 0 <= k < all@.len() implies (#[trigger] all@[k]).tile
                == places[k].0 && all@[k].index == places[k].1
                && all@[k].error.is_validation(spec_not_finite_message()) by {
                if k < so_far.len() {
                    assert(all@[k] == so_far[k]);
                    assert(places[k] == (before + added.take(i as int))[k]);
                } else {
                    assert(places[k] == added[i as int]);
                }
            }
        }
        i += 1;
    }
    assert(added.take(i as int) =~= added);
}

/// Draws what the cache holds of a list of tiles, in the order of the
/// list, at the time `now` in seconds since the Unix epoch.
///
/// Every tile of the list that is in the cache becomes recently used, the
/// last of the list most of all. A loaded tile is drawn. A tile that is not
/// loaded is marked as loading, and so is a tile that is put into the
/// cache because it was not there; both are named in the report so that
/// their load can be started. A feature that cannot be drawn is reported
/// and does not keep any other from being drawn.
pub fn render_pass(
    tiles: &Vec<(u32, u32, u8)>,
    cache: &mut TileCache,
    context: &RenderContext,
    surface: &mut Surface,
    now: u64,
) -> (report: PassReport)
    requires
        old(cache).wf(),
    ensures
        final(cache).wf(),
        final(cache)@.wf(),
        ({
            let end = spec_pass(
                PassModel {
                    cache: old(cache)@,
                    calls: old(surface)@,
                    requests: Seq::empty(),
                    failures: Seq::empty(),
                },
                context@,
                tiles@,
                now,
            );
            &&& final(cache)@ == end.cache
            &&& final(surface)@ == end.calls
            &&& report.load_requests@ == end.requests
            &&& spec_tiles_reported(report.failures@, end.failures)
        }),
{
    let ghost begin = PassModel {
        cache: cache@,
        calls: surface@,
        requests: Seq::empty(),
        failures: Seq::empty(),
    };
    let mut load_requests: Vec<TileId> = Vec::new();
    let mut failures: Vec<TileFailure> = Vec::new();
    let mut i: usize = 0;
    proof {
        cache.lemma_wf_model();
        assert(tiles@.take(0) =~= Seq::empty());
    }
    while i < tiles.len()
        invariant
            i <= tiles.len(),
            cache.wf(),
            cache@.wf(),
            cache@ == spec_pass(begin, context@, tiles@.take(i as int), now).cache,
            surface@ == spec_pass(begin, context@, tiles@.take(i as int), now).calls,
            load_requests@ == spec_pass(begin, context@, tiles@.take(i as int), now).requests,
            spec_tiles_reported(
                failures@,
                spec_pass(begin, context@, tiles@.take(i as int), now).failures,
            ),
        decreases tiles.len() - i,
    {
        let (x, y, z) = tiles[i];
        let id = TileId::new(x, y, z);
        let ghost before = spec_pass(begin, context@, tiles@.take(i as int), now);
        proof {
            let next = tiles@.take(i + 1);
            assert(next.drop_last() =~= tiles@.take(i as int));
            assert(next.last() == (x, y, z));
        }
        match cache.get_at(&id, now) {
            Some(tile) => {
                let loaded: bool = match &tile.status {
                    TileStatus::Loaded => true,
                    _ => false,
                };
                let unloaded: bool = match &tile.status {
                    TileStatus::NotLoaded => true,
                    _ => false,
                };
                if loaded {
                    let ghost drawn = surface@;
                    let of_tile = render_tile(&tile, context, surface);
                    note_failures(
                        &mut failures,
                        id,
                        &of_tile,
                        Ghost(before.failures),
                        Ghost(spec_tile_failures(context@, tile@)),
                    );
                } else if unloaded {
                    let mut pending = tile;
                    pending.status = TileStatus::Loading;
                    cache.insert(id, pending);
                    load_requests.push(id);
                }
            },
            None => {
                match Tile::created_at(x, y, z, now) {
                    Ok(created) => {
                        let mut pending = created;
                        pending.status = TileStatus::Loading;
                        cache.insert(id, pending);
                        load_requests.push(id);
                    },
                    Err(_) => {},
                }
            },
        }
        i += 1;
    }
    assert(tiles@.take(i as int) =~= tiles@);
    PassReport { load_requests, failures }
}

/// The tile that a finished load installs: loaded with the features that
/// came, or failed with the reason.
pub open spec fn spec_loaded_tile(
    id: TileId,
    outcome: Result<Seq<FeatureModel>, Seq<char>>,
    now: u64,
) -> TileModel {
    match outcome {
        Ok(features) => TileModel {
            status: StatusModel::Loaded,
            features,
            ..TileModel::fresh(id.x, id.y, id.z, now)
        },
        Err(reason) => TileModel {
            status: StatusModel::Error(reason),
            ..TileModel::fresh(id.x, id.y, id.z, now)
        },
    }
}

/// The outcome of a load as a mathematical value.
pub open spec fn spec_outcome(outcome: Result<Vec<GeoFeature>, String>) -> Result<
    Seq<FeatureModel>,
    Seq<char>,
> {
    match outcome {
        Ok(features) => Ok(features.deep_view()),
        Err(reason) => Err(reason@),
    }
}

/// Installs the outcome of a load in the cache, where the viewport still
/// needs the tile; a load whose tile is no longer needed is stale, and its
/// outcome is dropped. The answer tells whether the outcome was installed.
pub fn complete_load(
    cache: &mut TileCache,
    viewport: &Viewport,
    id: TileId,
    outcome: Result<Vec<GeoFeature>, String>,
    now: u64,
) -> (installed: bool)
    requires
        old(cache).wf(),
    ensures
        final(cache).wf(),
        final(cache)@.wf(),
        installed == viewport@.required_tiles().contains((id.x, id.y, id.z)),
        installed ==> final(cache)@ == old(cache)@.inserted(
            id,
            spec_loaded_tile(id, spec_outcome(outcome), now),
        ),
        !installed ==> final(cache)@ == old(cache)@,
{
    proof {
        cache.lemma_wf_model();
    }
    if !viewport.requires_tile(id.x, id.y, id.z) {
        return false;
    }
    proof {
        // A tile that the viewport needs lies in the grid.
        crate::model::viewport::lemma_required_tiles_in_grid(viewport@);
        let needed = viewport@.required_tiles();
        let k = choose|k: int| 0 <= k < needed.len() && needed[k] == (id.x, id.y, id.z);
        assert(needed[k].2 <= 20) by {
            crate::model::viewport::lemma_extent_bounds(viewport@.size, viewport@.zoom);
        }
    }
    let mut tile = Tile::created_at(id.x, id.y, id.z, now).unwrap();
    match outcome {
        Ok(features) => {
            tile.features = features;
            tile.status = TileStatus::Loaded;
        },
        Err(reason) => {
            tile.status = TileStatus::Error(reason);
        },
    }
    cache.insert(id, tile);
    true
}

} // verus!

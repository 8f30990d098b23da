use geoarrow_viz::engine::tiles::TileCache;
use geoarrow_viz::engine::tiles::TileId;
use geoarrow_viz::engine::tiles::TileInfo;
use geoarrow_viz::model::Tile;
use geoarrow_viz::model::TileStatus;

fn tile(x: u32, y: u32, z: u8, stamp: u64) -> Tile {
    Tile::created_at(x, y, z, stamp).unwrap()
}

#[test]
fn test_tile_cache() {
    let cache = TileCache::new(10);
    let tile_info1 = TileInfo::new(0, 0, 0, 1);
    let tile_info2 = TileInfo::new(1, 1, 1, 1);
    assert_eq!(cache.memory_usage(), 0);
    assert_eq!(cache.capacity(), 10);
    assert_eq!(tile_info1.tile_id(), TileId::new(0, 0, 1));
    assert_eq!(tile_info2.tile_id(), TileId::new(1, 1, 1));
    assert_eq!(tile_info2.id, 1);
}

#[test]
fn get_on_an_empty_cache_misses() {
    let mut cache = TileCache::new(2);
    assert!(cache.get(&TileId::new(0, 0, 0)).is_none());
    assert_eq!(cache.memory_usage(), 0);
}

#[test]
fn inserted_tile_comes_back() {
    let mut cache = TileCache::new(2);
    let id = TileId::new(3, 5, 4);
    let mut stored = tile(3, 5, 4, 7);
    stored.status = TileStatus::Error(String::from("no route"));
    cache.insert(id, stored);
    let got = cache.get(&id).unwrap();
    assert_eq!((got.x, got.y, got.z), (3, 5, 4));
    assert_eq!(got.status, TileStatus::Error(String::from("no route")));
    assert_eq!(got.bounds, tile(3, 5, 4, 0).bounds);
    assert_eq!(cache.memory_usage(), 1);
}

#[test]
fn least_recently_used_entry_is_evicted_not_the_oldest() {
    let a = TileId::new(0, 0, 1);
    let b = TileId::new(1, 0, 1);
    let c = TileId::new(0, 1, 1);
    let mut cache = TileCache::new(2);
    cache.insert(a, tile(0, 0, 1, 1));
    cache.insert(b, tile(1, 0, 1, 2));
    assert!(cache.get(&a).is_some());
    cache.insert(c, tile(0, 1, 1, 3));
    assert_eq!(cache.memory_usage(), 2);
    assert!(cache.get(&b).is_none());
    assert!(cache.get(&a).is_some());
    assert!(cache.get(&c).is_some());
}

#[test]
fn without_a_lookup_the_oldest_entry_is_evicted() {
    let a = TileId::new(0, 0, 1);
    let b = TileId::new(1, 0, 1);
    let c = TileId::new(0, 1, 1);
    let mut cache = TileCache::new(2);
    cache.insert(a, tile(0, 0, 1, 1));
    cache.insert(b, tile(1, 0, 1, 2));
    cache.insert(c, tile(0, 1, 1, 3));
    assert!(cache.get(&a).is_none());
    assert!(cache.get(&b).is_some());
    assert!(cache.get(&c).is_some());
}

#[test]
fn cache_never_exceeds_its_capacity() {
    let mut cache = TileCache::new(3);
    for round in 0..4u32 {
        for x in 0..8u32 {
            cache.insert(TileId::new(x, round, 3), tile(x % 8, round % 8, 3, 0));
            assert!(cache.memory_usage() <= 3);
        }
    }
    assert_eq!(cache.memory_usage(), 3);
    assert!(cache.get(&TileId::new(7, 3, 3)).is_some());
    assert!(cache.get(&TileId::new(6, 3, 3)).is_some());
    assert!(cache.get(&TileId::new(5, 3, 3)).is_some());
    assert!(cache.get(&TileId::new(4, 3, 3)).is_none());
}

#[test]
fn inserting_a_present_identifier_replaces_the_tile_and_renews_it() {
    let a = TileId::new(0, 0, 1);
    let b = TileId::new(1, 0, 1);
    let c = TileId::new(0, 1, 1);
    let mut cache = TileCache::new(2);
    cache.insert(a, tile(0, 0, 1, 1));
    cache.insert(b, tile(1, 0, 1, 2));
    let mut newer = tile(0, 0, 1, 9);
    newer.status = TileStatus::Loaded;
    cache.insert(a, newer);
    assert_eq!(cache.memory_usage(), 2);
    cache.insert(c, tile(0, 1, 1, 3));
    assert!(cache.get(&b).is_none());
    assert_eq!(cache.get(&a).unwrap().status, TileStatus::Loaded);
}

#[test]
fn cache_without_capacity_stays_empty() {
    let mut cache = TileCache::new(0);
    cache.insert(TileId::new(0, 0, 0), tile(0, 0, 0, 1));
    assert_eq!(cache.memory_usage(), 0);
    assert!(cache.get(&TileId::new(0, 0, 0)).is_none());
}

#[test]
fn cache_of_one_keeps_the_last_tile() {
    let mut cache = TileCache::new(1);
    cache.insert(TileId::new(0, 0, 2), tile(0, 0, 2, 1));
    cache.insert(TileId::new(1, 1, 2), tile(1, 1, 2, 2));
    assert_eq!(cache.memory_usage(), 1);
    assert!(cache.get(&TileId::new(0, 0, 2)).is_none());
    assert!(cache.get(&TileId::new(1, 1, 2)).is_some());
    assert!(cache.get(&TileId::new(1, 1, 2)).is_some());
}

#[test]
fn lookup_stamps_the_time_of_access() {
    let id = TileId::new(0, 0, 0);
    let mut cache = TileCache::new(1);
    cache.insert(id, tile(0, 0, 0, 0));
    let got = cache.get(&id).unwrap();
    assert!(got.last_accessed > 1_600_000_000);
}

#[test]
fn identifiers_that_differ_in_one_part_are_different_keys() {
    let mut cache = TileCache::new(8);
    cache.insert(TileId::new(1, 2, 3), tile(1, 2, 3, 0));
    assert!(cache.get(&TileId::new(2, 1, 3)).is_none());
    assert!(cache.get(&TileId::new(1, 2, 4)).is_none());
    assert!(cache.get(&TileId::new(1, 3, 3)).is_none());
    assert!(cache.get(&TileId::new(1, 2, 3)).is_some());
    assert_ne!(TileId::new(1, 2, 3).key(), TileId::new(2, 1, 3).key());
    assert_eq!(TileId::new(1, 2, 3).key(), (3u128 << 64) + (1u128 << 32) + 2);
}

#[test]
fn long_run_of_lookups_and_insertions_keeps_the_order() {
    let mut cache = TileCache::new(4);
    for x in 0..4u32 {
        cache.insert(TileId::new(x, 0, 5), tile(x, 0, 5, 0));
    }
    // Order from most to least recent: 3 2 1 0. Touch 0 and 2: 2 0 3 1.
    assert!(cache.get(&TileId::new(0, 0, 5)).is_some());
    assert!(cache.get(&TileId::new(2, 0, 5)).is_some());
    cache.insert(TileId::new(10, 0, 5), tile(10, 0, 5, 0));
    assert!(cache.get(&TileId::new(1, 0, 5)).is_none());
    // Now 10 2 0 3; the lookup of 1 missed and changed nothing.
    cache.insert(TileId::new(11, 0, 5), tile(11, 0, 5, 0));
    assert!(cache.get(&TileId::new(3, 0, 5)).is_none());
    assert!(cache.get(&TileId::new(0, 0, 5)).is_some());
    assert!(cache.get(&TileId::new(2, 0, 5)).is_some());
    assert!(cache.get(&TileId::new(10, 0, 5)).is_some());
    assert!(cache.get(&TileId::new(11, 0, 5)).is_some());
    assert_eq!(cache.memory_usage(), 4);
}

use city_core::assets::AssetLibrary;
use city_core::chunking::{
    block_world_span, chunk_world_span, wrap_coord, wrap_key, ChunkKey, ChunkManager,
    CityGenParams, LoadedCell, RuntimePlacement,
};
use city_core::city_store::ChunkStore;
use city_core::designer::RuleDesigner;
use city_core::geom::Vec3i;

fn demo_params() -> CityGenParams {
    CityGenParams {
        lots_x: 3,
        lots_z: 3,
        lot_w: 3000,
        lot_d: 3000,
        lot_gap: 400,
        road_w_minor: 3000,
        road_w_major: 8000,
        major_every: 6,
        blocks_per_chunk_x: 8,
        blocks_per_chunk_z: 8,
        seed: 0xA11CE,
    }
}

/// An in-memory store backend for tests.
struct MemStore {
    entries: Vec<((i32, i32), Vec<u8>)>,
    fail_writes: bool,
}

impl MemStore {
    fn new() -> MemStore {
        MemStore { entries: Vec::new(), fail_writes: false }
    }
}

impl ChunkStore for MemStore {
    fn load(&mut self, cx: i32, cz: i32) -> Option<Vec<u8>> {
        for (k, v) in &self.entries {
            if *k == (cx, cz) {
                return Some(v.clone());
            }
        }
        None
    }

    fn save(&mut self, cx: i32, cz: i32, bytes: &Vec<u8>) -> bool {
        if self.fail_writes {
            return false;
        }
        self.entries.retain(|(k, _)| *k != (cx, cz));
        self.entries.push(((cx, cz), bytes.clone()));
        true
    }
}

#[test]
fn spans_are_exact() {
    let p = demo_params();
    // block: 3 lots of 3.0, two gaps of 0.4, one minor road of 3.0
    let (bw, bd) = block_world_span(&p);
    assert_eq!(bw, 3 * 3000 + 2 * 400 + 3000);
    assert_eq!(bd, 12_800);
    // chunk: 8 blocks, plus one major road surcharge (8 / 6 == 1)
    let (cw, cd) = chunk_world_span(&p);
    assert_eq!(cw, 8 * 12_800 + (8000 - 3000));
    assert_eq!(cd, 107_400);
}

#[test]
fn wrap_coord_is_toroidal() {
    assert_eq!(wrap_coord(0, -4, 4), 0);
    assert_eq!(wrap_coord(4, -4, 4), 4);
    assert_eq!(wrap_coord(5, -4, 4), -4);
    assert_eq!(wrap_coord(-5, -4, 4), 4);
    assert_eq!(wrap_coord(13, -4, 4), 4);
    assert_eq!(wrap_coord(-13, -4, 4), -4);
}

#[test]
fn wrap_key_wraps_both_axes() {
    let bounds = (-4, 4, -4, 4);
    assert_eq!(wrap_key(5, -5, bounds), ChunkKey(-4, 4));
    assert_eq!(wrap_key(0, 0, bounds), ChunkKey(0, 0));
}

#[test]
fn world_to_chunk_round_trip_stays_in_cell() {
    let cm = ChunkManager::new(demo_params(), 3, (-4, 4, -4, 4), false, "demo");
    let (cw, cd) = cm.world_span();
    assert!(cw > 0 && cd > 0);
    let (span_x, span_z) = chunk_world_span(&demo_params());
    for &x in &[0i64, 1, -1, 107_399, 107_400, -107_401, 5_000_000] {
        let (cx, _) = cm.world_to_chunk(x, 0);
        let origin = cx * span_x;
        assert!(origin <= x && x < origin + span_x);
    }
    for &z in &[0i64, -1, 53_700, -53_700] {
        let (_, cz) = cm.world_to_chunk(0, z);
        let origin = cz * span_z;
        assert!(origin <= z && z < origin + span_z);
    }
}

#[test]
fn ensure_fills_exactly_the_window() {
    let mut cm = ChunkManager::new(demo_params(), 3, (-4, 4, -4, 4), false, "demo");
    let assets = AssetLibrary::new();
    let designer = RuleDesigner { params: demo_params() };
    let mut store = MemStore::new();
    cm.set_viewer(0, 0, 0);
    cm.ensure_for_viewers(&designer, &assets, &mut store);
    // One observer, radius 3: exactly (2*3+1)^2 distinct wrapped cells.
    assert_eq!(cm.loaded.len(), 49);
    // A second pass changes nothing.
    cm.ensure_for_viewers(&designer, &assets, &mut store);
    assert_eq!(cm.loaded.len(), 49);
}

#[test]
fn eviction_bound_holds_with_clipping_wrap() {
    // A world of 3x3 cells cannot hold more than 9 distinct cells,
    // however large the radius window is.
    let mut cm = ChunkManager::new(demo_params(), 3, (-1, 1, -1, 1), false, "demo");
    let assets = AssetLibrary::new();
    let designer = RuleDesigner { params: demo_params() };
    let mut store = MemStore::new();
    cm.set_viewer(0, 0, 0);
    cm.ensure_for_viewers(&designer, &assets, &mut store);
    assert_eq!(cm.loaded.len(), 9);
}

#[test]
fn remove_last_viewer_empties_the_active_set() {
    let mut cm = ChunkManager::new(demo_params(), 2, (-4, 4, -4, 4), false, "demo");
    let assets = AssetLibrary::new();
    let designer = RuleDesigner { params: demo_params() };
    let mut store = MemStore::new();
    cm.set_viewer(7, 0, 0);
    cm.ensure_for_viewers(&designer, &assets, &mut store);
    assert!(cm.loaded.len() > 0);
    cm.remove_viewer(7);
    assert_eq!(cm.loaded.len(), 0);
}

#[test]
fn moving_viewer_keeps_overlapping_cells() {
    let mut cm = ChunkManager::new(demo_params(), 3, (-4, 4, -4, 4), true, "demo");
    let assets = AssetLibrary::new();
    let designer = RuleDesigner { params: demo_params() };
    let mut store = MemStore::new();
    cm.set_viewer(0, 0, 0);
    cm.ensure_for_viewers(&designer, &assets, &mut store);
    let before: Vec<(ChunkKey, usize)> =
        cm.loaded.iter().map(|c| (c.key, c.placements.len())).collect();
    // Move one cell to the east; the overlapping window keeps content.
    let (span_x, _) = chunk_world_span(&demo_params());
    cm.set_viewer(0, span_x, 0);
    cm.ensure_for_viewers(&designer, &assets, &mut store);
    assert_eq!(cm.loaded.len(), 49);
    for cell in &cm.loaded {
        if let Some((_, n)) = before.iter().find(|(k, _)| *k == cell.key) {
            assert_eq!(*n, cell.placements.len());
        }
    }
}

#[test]
fn bake_on_miss_persists_and_reloads() {
    let assets = AssetLibrary::new();
    let designer = RuleDesigner { params: demo_params() };
    let mut store = MemStore::new();
    let mut cm = ChunkManager::new(demo_params(), 1, (-4, 4, -4, 4), true, "demo");
    cm.set_viewer(0, 0, 0);
    cm.ensure_for_viewers(&designer, &assets, &mut store);
    assert!(store.entries.len() > 0);
    let first: Vec<_> = cm.loaded.iter().map(|c| (c.key, c.placements.clone())).collect();
    // A fresh manager over the same store loads the same cells back.
    let mut cm2 = ChunkManager::new(demo_params(), 1, (-4, 4, -4, 4), true, "demo");
    cm2.set_viewer(0, 0, 0);
    cm2.ensure_for_viewers(&designer, &assets, &mut store);
    for cell in &cm2.loaded {
        let (_, pls) = first.iter().find(|(k, _)| *k == cell.key).unwrap();
        assert_eq!(pls.len(), cell.placements.len());
        for i in 0..pls.len() {
            assert_eq!(pls[i], cell.placements[i]);
        }
    }
}

#[test]
fn store_failures_degrade_to_regeneration() {
    let assets = AssetLibrary::new();
    let designer = RuleDesigner { params: demo_params() };
    let mut store = MemStore::new();
    store.fail_writes = true;
    let mut cm = ChunkManager::new(demo_params(), 1, (-4, 4, -4, 4), true, "demo");
    cm.set_viewer(0, 0, 0);
    cm.ensure_for_viewers(&designer, &assets, &mut store);
    assert_eq!(cm.loaded.len(), 9);
    assert_eq!(store.entries.len(), 0);
}

#[test]
fn corrupt_store_records_are_treated_as_misses() {
    let assets = AssetLibrary::new();
    let designer = RuleDesigner { params: demo_params() };
    let mut store = MemStore::new();
    // Garbage for every cell in the window.
    for cx in -1..=1 {
        for cz in -1..=1 {
            store.entries.push(((cx, cz), vec![1, 2, 3]));
        }
    }
    let mut cm = ChunkManager::new(demo_params(), 1, (-4, 4, -4, 4), false, "demo");
    cm.set_viewer(0, 0, 0);
    cm.ensure_for_viewers(&designer, &assets, &mut store);
    assert_eq!(cm.loaded.len(), 9);
    for cell in &cm.loaded {
        assert!(!cell.placements.is_empty());
    }
}

#[test]
fn origin_shift_round_trips_exactly() {
    let mut cm = ChunkManager::new(demo_params(), 1, (-4, 4, -4, 4), false, "demo");
    let assets = AssetLibrary::new();
    let designer = RuleDesigner { params: demo_params() };
    let mut store = MemStore::new();
    cm.set_viewer(0, 123_456, -98_765);
    cm.ensure_for_viewers(&designer, &assets, &mut store);
    let before: Vec<_> = cm.loaded.iter().map(|c| c.placements.clone()).collect();
    let off = Vec3i { x: 500_000, y: 0, z: -250_000 };
    cm.apply_shift(off);
    cm.apply_shift(Vec3i { x: -off.x, y: -off.y, z: -off.z });
    for (ci, cell) in cm.loaded.iter().enumerate() {
        assert_eq!(before[ci].len(), cell.placements.len());
        for i in 0..cell.placements.len() {
            assert_eq!(before[ci][i], cell.placements[i]);
        }
    }
}

#[test]
fn mutate_near_zero_rate_changes_nothing() {
    let mut cm = ChunkManager::new(demo_params(), 2, (-4, 4, -4, 4), false, "demo");
    let assets = AssetLibrary::new();
    let designer = RuleDesigner { params: demo_params() };
    let mut store = MemStore::new();
    cm.set_viewer(0, 0, 0);
    cm.ensure_for_viewers(&designer, &assets, &mut store);
    let before: Vec<_> = cm.loaded.iter().map(|c| c.placements.clone()).collect();
    cm.mutate_near(&assets, 0, 1_000_000, 1, 0xDEADBEEF);
    for (ci, cell) in cm.loaded.iter().enumerate() {
        for i in 0..cell.placements.len() {
            assert_eq!(before[ci][i], cell.placements[i]);
        }
    }
}

#[test]
fn mutate_near_keeps_footprints_and_categories() {
    let mut cm = ChunkManager::new(demo_params(), 2, (-4, 4, -4, 4), false, "demo");
    let assets = AssetLibrary::new();
    let designer = RuleDesigner { params: demo_params() };
    let mut store = MemStore::new();
    cm.set_viewer(0, 0, 0);
    cm.ensure_for_viewers(&designer, &assets, &mut store);
    let before: Vec<_> = cm.loaded.iter().map(|c| c.placements.clone()).collect();
    // A large rate over one second: plenty of mutation budget.
    cm.mutate_near(&assets, 1000, 1000, 1, 0x1234_5678_9ABC_DEF0);
    let mut changed = false;
    for (ci, cell) in cm.loaded.iter().enumerate() {
        assert_eq!(before[ci].len(), cell.placements.len());
        for i in 0..cell.placements.len() {
            let o = before[ci][i];
            let n = cell.placements[i];
            assert_eq!(o.center.x, n.center.x);
            assert_eq!(o.center.z, n.center.z);
            if o != n {
                changed = true;
                assert_eq!(
                    assets.category_of(o.archetype_id as usize),
                    assets.category_of(n.archetype_id as usize)
                );
                assert!(700 <= n.scale.x && n.scale.x <= 1800);
                assert!(700 <= n.scale.y && n.scale.y <= 2500);
                assert!(700 <= n.scale.z && n.scale.z <= 1800);
                let base = assets.base_half(n.archetype_id as usize);
                assert_eq!(n.center.y, base.y * n.scale.y / 1000);
            }
        }
    }
    assert!(changed);
}

#[test]
fn mutate_near_leaves_cells_outside_the_window_alone() {
    let mut cm = ChunkManager::new(demo_params(), 1, (-4, 4, -4, 4), false, "demo");
    let assets = AssetLibrary::new();
    let designer = RuleDesigner { params: demo_params() };
    let mut store = MemStore::new();
    cm.set_viewer(0, 0, 0);
    cm.ensure_for_viewers(&designer, &assets, &mut store);
    // A far-away cell, outside the radius-1 window around the origin.
    let far = RuntimePlacement {
        center: Vec3i { x: 1, y: 2, z: 3 },
        scale: Vec3i { x: 1000, y: 1000, z: 1000 },
        archetype_id: 0,
    };
    cm.loaded.push(LoadedCell { key: ChunkKey(4, 4), placements: vec![far] });
    cm.mutate_near(&assets, 1000, 1000, 1, 0xFEED);
    let cell = cm.loaded.iter().find(|c| c.key == ChunkKey(4, 4)).unwrap();
    assert_eq!(cell.placements.len(), 1);
    assert_eq!(cell.placements[0], far);
}

#[test]
fn streaming_radius_is_floored_at_one_and_otherwise_kept() {
    let cm = ChunkManager::new(demo_params(), 0, (-4, 4, -4, 4), false, "demo");
    assert_eq!(cm.chunk_radius, 1);
    let cm2 = ChunkManager::new(demo_params(), -7, (-4, 4, -4, 4), false, "demo");
    assert_eq!(cm2.chunk_radius, 1);
    let cm3 = ChunkManager::new(demo_params(), 1000, (-4, 4, -4, 4), false, "demo");
    assert_eq!(cm3.chunk_radius, 1000);
}

#[test]
fn large_radius_window_is_clipped_by_the_world() {
    // Radius 200 covers the whole 3x3 toroidal world many times over;
    // the active set still holds each of its 9 cells exactly once.
    let mut cm = ChunkManager::new(demo_params(), 200, (-1, 1, -1, 1), false, "demo");
    let assets = AssetLibrary::new();
    let designer = RuleDesigner { params: demo_params() };
    let mut store = MemStore::new();
    cm.set_viewer(0, 0, 0);
    cm.ensure_for_viewers(&designer, &assets, &mut store);
    assert_eq!(cm.loaded.len(), 9);
}

#[test]
fn mutate_near_negative_radius_changes_nothing() {
    let mut cm = ChunkManager::new(demo_params(), 2, (-4, 4, -4, 4), false, "demo");
    let assets = AssetLibrary::new();
    let designer = RuleDesigner { params: demo_params() };
    let mut store = MemStore::new();
    cm.set_viewer(0, 0, 0);
    cm.ensure_for_viewers(&designer, &assets, &mut store);
    let before: Vec<_> = cm.loaded.iter().map(|c| c.placements.clone()).collect();
    cm.mutate_near(&assets, 1000, 1000, -1, 0xBEEF);
    for (ci, cell) in cm.loaded.iter().enumerate() {
        for i in 0..cell.placements.len() {
            assert_eq!(before[ci][i], cell.placements[i]);
        }
    }
}

#[test]
fn set_viewer_is_an_upsert() {
    let mut cm = ChunkManager::new(demo_params(), 1, (-4, 4, -4, 4), false, "demo");
    cm.set_viewer(1, 10, 20);
    cm.set_viewer(2, 30, 40);
    cm.set_viewer(1, 50, 60);
    assert_eq!(cm.viewers.len(), 2);
    assert_eq!(cm.viewers[0].x, 50);
    assert_eq!(cm.viewers[0].z, 60);
    assert_eq!(cm.viewers[1].id, 2);
}

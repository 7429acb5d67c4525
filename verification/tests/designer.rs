use city_core::assets::AssetLibrary;
use city_core::chunking::CityGenParams;
use city_core::designer::{BiasedDesigner, CityDesigner, DesignContext, RuleDesigner};

fn demo_params() -> CityGenParams {
    CityGenParams {
        lots_x: 3,
        lots_z: 3,
        lot_w: 3000,
        lot_d: 3000,
        lot_gap: 400,
        road_w_minor: 3000,
        road_w_major: 8000,
        major_every: 6,
        blocks_per_chunk_x: 8,
        blocks_per_chunk_z: 8,
        seed: 0xA11CE,
    }
}

#[test]
fn design_cell_zero_twice_is_identical() {
    let assets = AssetLibrary::new();
    let designer = RuleDesigner { params: demo_params() };
    let ctx = DesignContext { cx: 0, cz: 0, seed: 0xA11CE };
    let a = designer.design_chunk(&ctx, &assets);
    let b = designer.design_chunk(&ctx, &assets);
    assert!(!a.is_empty());
    assert_eq!(a.len(), b.len());
    for i in 0..a.len() {
        assert_eq!(a[i], b[i]);
    }
}

#[test]
fn neighbor_cell_differs_but_is_deterministic() {
    let assets = AssetLibrary::new();
    let designer = RuleDesigner { params: demo_params() };
    let c00 = DesignContext { cx: 0, cz: 0, seed: 0xA11CE };
    let c10 = DesignContext { cx: 1, cz: 0, seed: 0xA11CE };
    let a = designer.design_chunk(&c00, &assets);
    let b = designer.design_chunk(&c10, &assets);
    let b2 = designer.design_chunk(&c10, &assets);
    assert_eq!(b.len(), b2.len());
    for i in 0..b.len() {
        assert_eq!(b[i], b2[i]);
    }
    // The neighbor's list differs: either in length or in some entry.
    let same_len = a.len() == b.len();
    let mut all_equal = same_len;
    if same_len {
        for i in 0..a.len() {
            if a[i] != b[i] {
                all_equal = false;
            }
        }
    }
    assert!(!all_equal);
}

#[test]
fn major_road_blocks_produce_no_placements() {
    // With major_every = 1 every block falls on a major road, so the
    // whole cell is roads: no placements at all.
    let mut p = demo_params();
    p.major_every = 1;
    let assets = AssetLibrary::new();
    let designer = RuleDesigner { params: p };
    let ctx = DesignContext { cx: 0, cz: 0, seed: 0xA11CE };
    let out = designer.design_chunk(&ctx, &assets);
    assert!(out.is_empty());
}

#[test]
fn placement_count_reflects_reserved_road_blocks() {
    // Blocks on a major-road row or column produce no placements.  With
    // an 8×8 block grid and a major road every 6 blocks, rows/columns 0
    // and 6 are reserved, keeping 6×6 = 36 blocks of 3×3 lots each.
    let assets = AssetLibrary::new();
    let designer = RuleDesigner { params: demo_params() };
    let ctx = DesignContext { cx: 0, cz: 0, seed: 0xA11CE };
    let out = designer.design_chunk(&ctx, &assets);
    assert_eq!(out.len(), 36 * 9);
    // With a road every 2 blocks only odd-odd blocks remain: 4×4.
    let mut p = demo_params();
    p.major_every = 2;
    let designer2 = RuleDesigner { params: p };
    let out2 = designer2.design_chunk(&ctx, &assets);
    assert_eq!(out2.len(), 16 * 9);
}

#[test]
fn placements_are_grounded_and_scaled_in_range() {
    let assets = AssetLibrary::new();
    let designer = RuleDesigner { params: demo_params() };
    let ctx = DesignContext { cx: -2, cz: 3, seed: 0xA11CE };
    let out = designer.design_chunk(&ctx, &assets);
    assert!(!out.is_empty());
    for p in &out {
        assert!((p.archetype_id as usize) < 8);
        assert!(850 <= p.scale.x && p.scale.x <= 1200);
        assert!(850 <= p.scale.z && p.scale.z <= 1200);
        assert!(800 <= p.scale.y && p.scale.y <= 2500);
        let base = assets.base_half(p.archetype_id as usize);
        assert_eq!(p.center.y, base.y * p.scale.y / 1000);
    }
}

#[test]
fn zero_bias_matches_rule_designer() {
    let assets = AssetLibrary::new();
    let rule = RuleDesigner { params: demo_params() };
    let biased = BiasedDesigner { params: demo_params(), bias: (0, 0, 0) };
    let ctx = DesignContext { cx: 2, cz: -1, seed: 0xA11CE };
    let a = rule.design_chunk(&ctx, &assets);
    let b = biased.design_chunk(&ctx, &assets);
    assert_eq!(a.len(), b.len());
    for i in 0..a.len() {
        assert_eq!(a[i], b[i]);
    }
}

#[test]
fn bias_changes_the_distribution() {
    let assets = AssetLibrary::new();
    let rule = RuleDesigner { params: demo_params() };
    // A heavy landmark bias should change at least one category pick.
    let biased = BiasedDesigner { params: demo_params(), bias: (-2000, -2000, 2000) };
    let ctx = DesignContext { cx: 0, cz: 0, seed: 0xA11CE };
    let a = rule.design_chunk(&ctx, &assets);
    let b = biased.design_chunk(&ctx, &assets);
    let mut differs = a.len() != b.len();
    if !differs {
        for i in 0..a.len() {
            if a[i] != b[i] {
                differs = true;
            }
        }
    }
    assert!(differs);
}

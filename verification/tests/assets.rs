use city_core::assets::{AssetLibrary, BuildingCategory, CategoryMesh};
use city_core::geom::Vec3i;

#[test]
fn standard_table_has_eight_archetypes() {
    let a = AssetLibrary::new();
    assert_eq!(a.len(), 8);
    assert_eq!(a.indices_by_category(BuildingCategory::Lowrise).as_slice(), &[0, 1, 2]);
    assert_eq!(a.indices_by_category(BuildingCategory::Highrise).as_slice(), &[3, 4, 5]);
    assert_eq!(a.indices_by_category(BuildingCategory::Landmark).as_slice(), &[6, 7]);
}

#[test]
fn categories_match_index_lists() {
    let a = AssetLibrary::new();
    for cat in [
        BuildingCategory::Lowrise,
        BuildingCategory::Highrise,
        BuildingCategory::Landmark,
    ] {
        for &id in a.indices_by_category(cat).iter() {
            assert_eq!(a.category_of(id), cat);
        }
    }
}

#[test]
fn half_extents_are_the_published_ones() {
    let a = AssetLibrary::new();
    assert_eq!(a.base_half(0), Vec3i { x: 900, y: 900, z: 900 });
    assert_eq!(a.base_half(3), Vec3i { x: 700, y: 1600, z: 700 });
    assert_eq!(a.base_half(5), Vec3i { x: 550, y: 1500, z: 550 });
    assert_eq!(a.base_half(6), Vec3i { x: 1200, y: 1200, z: 1200 });
    assert_eq!(a.base_half(7), Vec3i { x: 1100, y: 1100, z: 800 });
}

#[test]
fn category_meshes_cover_the_draw_buckets() {
    // The renderer batches by these five shared meshes.
    let kinds = [
        CategoryMesh::Lowrise,
        CategoryMesh::Highrise,
        CategoryMesh::Landmark,
        CategoryMesh::Billboard,
        CategoryMesh::Ground,
    ];
    assert_eq!(kinds.len(), 5);
    let a = AssetLibrary::new();
    for arch in &a.archetypes {
        assert!(kinds.contains(&arch.rep_category_mesh));
    }
}

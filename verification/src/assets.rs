//! Archetype metadata: categories, base half-extents and per-category
//! index lists.  The geometry itself (meshes) belongs to the embedding
//! renderer; the core only reads metadata.

use vstd::prelude::*;
use crate::geom::Vec3i;

verus! {

/// Zoning category of a generated building.
#[derive(Copy, Clone, Debug, PartialEq, Eq, Structural)]
pub enum BuildingCategory {
    Lowrise,
    Highrise,
    Landmark,
}

/// Which shared draw-mesh the renderer batches an archetype under.
#[derive(Copy, Clone, Debug, PartialEq, Eq, Structural)]
pub enum CategoryMesh {
    Lowrise,
    Highrise,
    Landmark,
    Billboard,
    Ground,
}

/// One archetype entry: category, culling half-extents in milli-units,
/// and the shared mesh the renderer represents it with.
#[derive(Clone, Debug)]
pub struct Archetype {
    pub name: &'static str,
    pub category: BuildingCategory,
    pub base_half: Vec3i,
    pub rep_category_mesh: CategoryMesh,
}

/// Metadata table of every registered archetype, with per-category index
/// lists for uniform draws.
pub struct AssetLibrary {
    pub archetypes: Vec<Archetype>,
    pub idx_lowrise: Vec<usize>,
    pub idx_highrise: Vec<usize>,
    pub idx_landmark: Vec<usize>,
}

/// Largest half-extent (milli-units) any archetype may declare.
pub const BASE_HALF_MAX: i64 = 100_000;

impl AssetLibrary {
    /// The index list of one category.
    pub open spec fn sp_indices(&self, cat: BuildingCategory) -> Seq<usize> {
        match cat {
            BuildingCategory::Lowrise => self.idx_lowrise@,
            BuildingCategory::Highrise => self.idx_highrise@,
            BuildingCategory::Landmark => self.idx_landmark@,
        }
    }

    /// Every index list names each archetype at most once and points at
    /// one of that category; every half-extent is positive and bounded.
    pub open spec fn wf(&self) -> bool {
        &&& self.archetypes@.len() <= 0x1_0000
        &&& forall|cat: BuildingCategory| (#[trigger] self.sp_indices(cat)).len() <= 0x1_0000
        &&& forall|cat: BuildingCategory, k1: int, k2: int|
            0 <= k1 < k2 < self.sp_indices(cat).len() ==> #[trigger] self.sp_indices(
                cat,
            )[k1] != #[trigger] self.sp_indices(cat)[k2]
        &&& forall|cat: BuildingCategory, k: int|
            0 <= k < self.sp_indices(cat).len() ==> {
                let id = #[trigger] self.sp_indices(cat)[k];
                &&& id < self.archetypes@.len()
                &&& self.archetypes@[id as int].category == cat
            }
        &&& forall|i: int|
            0 <= i < self.archetypes@.len() ==> {
                let h = (#[trigger] self.archetypes@[i]).base_half;
                &&& 1 <= h.x <= BASE_HALF_MAX
                &&& 1 <= h.y <= BASE_HALF_MAX
                &&& 1 <= h.z <= BASE_HALF_MAX
            }
    }

    /// Builds the standard archetype table: three low-rise variants,
    /// three high-rise variants and two landmarks.
    pub fn new() -> (r: Self)
        ensures
            r.wf(),
            r.archetypes@.len() == 8,
            r.sp_indices(BuildingCategory::Lowrise) == seq![0usize, 1, 2],
            r.sp_indices(BuildingCategory::Highrise) == seq![3usize, 4, 5],
            r.sp_indices(BuildingCategory::Landmark) == seq![6usize, 7],
            forall|i: int|
                0 <= i < 3 ==> (#[trigger] r.archetypes@[i]).category
                    == BuildingCategory::Lowrise,
            forall|i: int|
                3 <= i < 6 ==> (#[trigger] r.archetypes@[i]).category
                    == BuildingCategory::Highrise,
            forall|i: int|
                6 <= i < 8 ==> (#[trigger] r.archetypes@[i]).category
                    == BuildingCategory::Landmark,
            r.archetypes@[0].base_half == (Vec3i { x: 900, y: 900, z: 900 }),
            r.archetypes@[1].base_half == (Vec3i { x: 900, y: 900, z: 900 }),
            r.archetypes@[2].base_half == (Vec3i { x: 900, y: 900, z: 900 }),
            r.archetypes@[3].base_half == (Vec3i { x: 700, y: 1600, z: 700 }),
            r.archetypes@[4].base_half == (Vec3i { x: 700, y: 1600, z: 700 }),
            r.archetypes@[5].base_half == (Vec3i { x: 550, y: 1500, z: 550 }),
            r.archetypes@[6].base_half == (Vec3i { x: 1200, y: 1200, z: 1200 }),
            r.archetypes@[7].base_half == (Vec3i { x: 1100, y: 1100, z: 800 }),
    {
        let mut archetypes: Vec<Archetype> = Vec::new();
        archetypes.push(
            Archetype {
                name: "timber_house_a",
                category: BuildingCategory::Lowrise,
                base_half: Vec3i { x: 900, y: 900, z: 900 },
                rep_category_mesh: CategoryMesh::Lowrise,
            },
        );
        archetypes.push(
            Archetype {
                name: "timber_house_b",
                category: BuildingCategory::Lowrise,
                base_half: Vec3i { x: 900, y: 900, z: 900 },
                rep_category_mesh: CategoryMesh::Lowrise,
            },
        );
        archetypes.push(
            Archetype {
                name: "workshop_neon",
                category: BuildingCategory::Lowrise,
                base_half: Vec3i { x: 900, y: 900, z: 900 },
                rep_category_mesh: CategoryMesh::Lowrise,
            },
        );
        archetypes.push(
            Archetype {
                name: "block_tower_a",
                category: BuildingCategory::Highrise,
                base_half: Vec3i { x: 700, y: 1600, z: 700 },
                rep_category_mesh: CategoryMesh::Highrise,
            },
        );
        archetypes.push(
            Archetype {
                name: "block_tower_b",
                category: BuildingCategory::Highrise,
                base_half: Vec3i { x: 700, y: 1600, z: 700 },
                rep_category_mesh: CategoryMesh::Highrise,
            },
        );
        archetypes.push(
            Archetype {
                name: "cyl_tower_12",
                category: BuildingCategory::Highrise,
                base_half: Vec3i { x: 550, y: 1500, z: 550 },
                rep_category_mesh: CategoryMesh::Highrise,
            },
        );
        archetypes.push(
            Archetype {
                name: "pyramid_citadel",
                category: BuildingCategory::Landmark,
                base_half: Vec3i { x: 1200, y: 1200, z: 1200 },
                rep_category_mesh: CategoryMesh::Landmark,
            },
        );
        archetypes.push(
            Archetype {
                name: "gate_arch",
                category: BuildingCategory::Landmark,
                base_half: Vec3i { x: 1100, y: 1100, z: 800 },
                rep_category_mesh: CategoryMesh::Landmark,
            },
        );
        let mut idx_lowrise: Vec<usize> = Vec::new();
        idx_lowrise.push(0);
        idx_lowrise.push(1);
        idx_lowrise.push(2);
        let mut idx_highrise: Vec<usize> = Vec::new();
        idx_highrise.push(3);
        idx_highrise.push(4);
        idx_highrise.push(5);
        let mut idx_landmark: Vec<usize> = Vec::new();
        idx_landmark.push(6);
        idx_landmark.push(7);
        let r = AssetLibrary { archetypes, idx_lowrise, idx_highrise, idx_landmark };
        proof {
            assert(r.sp_indices(BuildingCategory::Lowrise) =~= seq![0usize, 1, 2]);
            assert(r.sp_indices(BuildingCategory::Highrise) =~= seq![3usize, 4, 5]);
            assert(r.sp_indices(BuildingCategory::Landmark) =~= seq![6usize, 7]);
        }
        r
    }

    /// Base half-extents of an archetype, for culling and grounding.
    pub fn base_half(&self, id: usize) -> (r: Vec3i)
        requires
            id < self.archetypes@.len(),
        ensures
            r == self.archetypes@[id as int].base_half,
    {
        self.archetypes[id].base_half
    }

    /// Category of an archetype.
    pub fn category_of(&self, id: usize) -> (r: BuildingCategory)
        requires
            id < self.archetypes@.len(),
        ensures
            r == self.archetypes@[id as int].category,
    {
        self.archetypes[id].category
    }

    /// All archetype ids registered under one category.
    pub fn indices_by_category(&self, cat: BuildingCategory) -> (r: &Vec<usize>)
        ensures
            r@ == self.sp_indices(cat),
    {
        match cat {
            BuildingCategory::Lowrise => &self.idx_lowrise,
            BuildingCategory::Highrise => &self.idx_highrise,
            BuildingCategory::Landmark => &self.idx_landmark,
        }
    }

    /// Number of registered archetypes.
    pub fn len(&self) -> (r: usize)
        ensures
            r == self.archetypes@.len(),
    {
        self.archetypes.len()
    }
}

} // verus!

//! Chunk-based streaming: cell coordinates, generation parameters, the
//! active-cell cache with its eviction policy, floating-origin shifts and
//! the slow background mutation pass.

use vstd::prelude::*;
use vstd::arithmetic::div_mod::lemma_fundamental_div_mod;
use crate::assets::AssetLibrary;
use crate::city_store::ChunkFile;
use crate::designer::{CityDesigner, DesignContext};
use crate::geom::{floor_div, Vec3i};
use crate::rng::sp_hash2;

verus! {

pub type ViewerId = u32;

/// Runtime placement: one generated object, as the renderer reads it.
/// `center` is in milli-units, `scale` in thousandths.
#[derive(Copy, Clone, PartialEq, Eq, Structural, Debug)]
pub struct RuntimePlacement {
    pub center: Vec3i,
    pub scale: Vec3i,
    pub archetype_id: u16,
}

/// Immutable generation parameters.  Lengths are in milli-units.
#[derive(Clone, Debug)]
pub struct CityGenParams {
    pub lots_x: usize,
    pub lots_z: usize,
    pub lot_w: i64,
    pub lot_d: i64,
    pub lot_gap: i64,
    pub road_w_minor: i64,
    pub road_w_major: i64,
    pub major_every: usize,
    pub blocks_per_chunk_x: usize,
    pub blocks_per_chunk_z: usize,
    pub seed: u64,
}

impl CityGenParams {
    /// Ranges under which every span and placement coordinate stays far
    /// from the limits of `i64`.
    pub open spec fn wf(&self) -> bool {
        &&& 1 <= self.lots_x <= 256
        &&& 1 <= self.lots_z <= 256
        &&& 1 <= self.lot_w <= 1_000_000
        &&& 1 <= self.lot_d <= 1_000_000
        &&& 0 <= self.lot_gap <= 1_000_000
        &&& 0 <= self.road_w_minor <= self.road_w_major <= 1_000_000
        &&& self.major_every <= 256
        &&& 1 <= self.blocks_per_chunk_x <= 256
        &&& 1 <= self.blocks_per_chunk_z <= 256
    }
}

/// Width of one block along x: its lots, the gaps between them, and one
/// minor road.
pub open spec fn sp_block_span_x(p: &CityGenParams) -> int {
    p.lots_x * p.lot_w + (p.lots_x - 1) * p.lot_gap + p.road_w_minor
}

/// Depth of one block along z.
pub open spec fn sp_block_span_z(p: &CityGenParams) -> int {
    p.lots_z * p.lot_d + (p.lots_z - 1) * p.lot_gap + p.road_w_minor
}

/// Extra width a chunk gains from the major roads that replace every
/// `major_every`-th minor road.
pub open spec fn sp_major_extra(p: &CityGenParams, blocks: int) -> int {
    if p.major_every > 0 {
        (blocks / p.major_every as int) * (p.road_w_major - p.road_w_minor)
    } else {
        0
    }
}

/// Width of one chunk along x, in milli-units.
pub open spec fn sp_chunk_span_x(p: &CityGenParams) -> int {
    p.blocks_per_chunk_x * sp_block_span_x(p) + sp_major_extra(
        p,
        p.blocks_per_chunk_x as int,
    )
}

/// Depth of one chunk along z, in milli-units.
pub open spec fn sp_chunk_span_z(p: &CityGenParams) -> int {
    p.blocks_per_chunk_z * sp_block_span_z(p) + sp_major_extra(
        p,
        p.blocks_per_chunk_z as int,
    )
}

/// Largest possible block span under `CityGenParams::wf`.
pub const BLOCK_SPAN_MAX: i64 = 513_000_000;

/// Largest possible chunk span under `CityGenParams::wf`.
pub const CHUNK_SPAN_MAX: i64 = 131_584_000_000;

proof fn lemma_block_span_bounds(p: &CityGenParams)
    requires
        p.wf(),
    ensures
        1 <= sp_block_span_x(p) <= BLOCK_SPAN_MAX,
        1 <= sp_block_span_z(p) <= BLOCK_SPAN_MAX,
{
    assert(p.lots_x * p.lot_w <= 256 * 1_000_000 && p.lots_x * p.lot_w >= 1)
        by (nonlinear_arith)
        requires
            1 <= p.lots_x <= 256,
            1 <= p.lot_w <= 1_000_000,
    ;
    assert((p.lots_x - 1) * p.lot_gap <= 255 * 1_000_000 && (p.lots_x - 1) * p.lot_gap
        >= 0) by (nonlinear_arith)
        requires
            1 <= p.lots_x <= 256,
            0 <= p.lot_gap <= 1_000_000,
    ;
    assert(p.lots_z * p.lot_d <= 256 * 1_000_000 && p.lots_z * p.lot_d >= 1)
        by (nonlinear_arith)
        requires
            1 <= p.lots_z <= 256,
            1 <= p.lot_d <= 1_000_000,
    ;
    assert((p.lots_z - 1) * p.lot_gap <= 255 * 1_000_000 && (p.lots_z - 1) * p.lot_gap
        >= 0) by (nonlinear_arith)
        requires
            1 <= p.lots_z <= 256,
            0 <= p.lot_gap <= 1_000_000,
    ;
}

proof fn lemma_chunk_span_bounds(p: &CityGenParams)
    requires
        p.wf(),
    ensures
        1 <= sp_chunk_span_x(p) <= CHUNK_SPAN_MAX,
        1 <= sp_chunk_span_z(p) <= CHUNK_SPAN_MAX,
{
    lemma_block_span_bounds(p);
    lemma_chunk_span_bounds_one(
        p.blocks_per_chunk_x as int,
        sp_block_span_x(p),
        p,
    );
    lemma_chunk_span_bounds_one(
        p.blocks_per_chunk_z as int,
        sp_block_span_z(p),
        p,
    );
}

proof fn lemma_chunk_span_bounds_one(blocks: int, bspan: int, p: &CityGenParams)
    requires
        p.wf(),
        1 <= blocks <= 256,
        1 <= bspan <= BLOCK_SPAN_MAX,
    ensures
        1 <= blocks * bspan + sp_major_extra(p, blocks) <= CHUNK_SPAN_MAX,
{
    assert(1 <= blocks * bspan <= 256 * BLOCK_SPAN_MAX) by (nonlinear_arith)
        requires
            1 <= blocks <= 256,
            1 <= bspan <= BLOCK_SPAN_MAX,
    ;
    if p.major_every > 0 {
        assert(0 <= blocks / p.major_every as int <= 256) by (nonlinear_arith)
            requires
                1 <= blocks <= 256,
                1 <= p.major_every as int,
        ;
        assert(0 <= (blocks / p.major_every as int) * (p.road_w_major - p.road_w_minor)
            <= 256 * 1_000_000) by (nonlinear_arith)
            requires
                0 <= blocks / p.major_every as int <= 256,
                0 <= p.road_w_major - p.road_w_minor <= 1_000_000,
        ;
    }
}

/// World-metric size of one block, `(width, depth)` in milli-units.
pub fn block_world_span(p: &CityGenParams) -> (r: (i64, i64))
    requires
        p.wf(),
    ensures
        r.0 == sp_block_span_x(p),
        r.1 == sp_block_span_z(p),
        1 <= r.0 <= BLOCK_SPAN_MAX,
        1 <= r.1 <= BLOCK_SPAN_MAX,
{
    proof {
        lemma_block_span_bounds(p);
    }
    let block_w = p.lots_x as i64 * p.lot_w + (p.lots_x as i64 - 1) * p.lot_gap
        + p.road_w_minor;
    let block_d = p.lots_z as i64 * p.lot_d + (p.lots_z as i64 - 1) * p.lot_gap
        + p.road_w_minor;
    (block_w, block_d)
}

/// World-metric size of one chunk, `(width, depth)` in milli-units,
/// including the extra width of periodic major roads.
pub fn chunk_world_span(p: &CityGenParams) -> (r: (i64, i64))
    requires
        p.wf(),
    ensures
        r.0 == sp_chunk_span_x(p),
        r.1 == sp_chunk_span_z(p),
        1 <= r.0 <= CHUNK_SPAN_MAX,
        1 <= r.1 <= CHUNK_SPAN_MAX,
{
    proof {
        lemma_block_span_bounds(p);
        lemma_chunk_span_bounds(p);
    }
    let (bw, bd) = block_world_span(p);
    proof {
        assert(1 <= p.blocks_per_chunk_x * bw <= 256 * BLOCK_SPAN_MAX && 1
            <= p.blocks_per_chunk_z * bd <= 256 * BLOCK_SPAN_MAX) by (nonlinear_arith)
            requires
                1 <= p.blocks_per_chunk_x as int <= 256,
                1 <= p.blocks_per_chunk_z as int <= 256,
                1 <= bw as int <= BLOCK_SPAN_MAX as int,
                1 <= bd as int <= BLOCK_SPAN_MAX as int,
        ;
    }
    let mut w = p.blocks_per_chunk_x as i64 * bw;
    let mut d = p.blocks_per_chunk_z as i64 * bd;
    if p.major_every > 0 {
        w += (p.blocks_per_chunk_x / p.major_every) as i64 * (p.road_w_major
            - p.road_w_minor);
        d += (p.blocks_per_chunk_z / p.major_every) as i64 * (p.road_w_major
            - p.road_w_minor);
    }
    (w, d)
}

/// Identifier of one streamed cell: its chunk coordinates.
#[derive(Hash, Eq, PartialEq, Copy, Clone, Structural, Debug)]
pub struct ChunkKey(pub i32, pub i32);

/// The coordinate `c` wrapped into the inclusive range `min_c ..= max_c`
/// (toroidal world policy): congruent to `c` modulo the range size.
pub open spec fn sp_wrap(c: int, min_c: int, max_c: int) -> int
    recommends
        min_c <= max_c,
{
    min_c + (c - min_c) % (max_c - min_c + 1)
}

/// Wraps a wide cell index into the inclusive bounds.
pub fn wrap_coord_wide(c: i64, min_c: i32, max_c: i32) -> (r: i32)
    requires
        min_c <= max_c,
        -0x2000_0000_0000_0000 <= c <= 0x2000_0000_0000_0000,
    ensures
        r == sp_wrap(c as int, min_c as int, max_c as int),
        min_c <= r <= max_c,
{
    let size: i64 = max_c as i64 - min_c as i64 + 1;
    let v: i64 = c - min_c as i64;
    let q = floor_div(v, size);
    proof {
        lemma_fundamental_div_mod(v as int, size as int);
    }
    let m = v - size * q;
    (min_c as i64 + m) as i32
}

/// Wraps a cell coordinate into the inclusive bounds (toroidal policy).
pub fn wrap_coord(c: i32, min_c: i32, max_c: i32) -> (r: i32)
    requires
        min_c <= max_c,
    ensures
        r == sp_wrap(c as int, min_c as int, max_c as int),
        min_c <= r <= max_c,
{
    wrap_coord_wide(c as i64, min_c, max_c)
}

/// The cell key for possibly out-of-range coordinates, under the bounds
/// `(min_x, max_x, min_z, max_z)`.
pub open spec fn sp_wrap_key(cx: int, cz: int, bounds: (i32, i32, i32, i32)) -> ChunkKey {
    ChunkKey(
        sp_wrap(cx, bounds.0 as int, bounds.1 as int) as i32,
        sp_wrap(cz, bounds.2 as int, bounds.3 as int) as i32,
    )
}

/// Well-formed inclusive bounds, small enough that every in-range cell
/// origin stays far from the limits of `i64`.
pub open spec fn sp_bounds_wf(bounds: (i32, i32, i32, i32)) -> bool {
    &&& -32768 <= bounds.0 <= bounds.1 <= 32767
    &&& -32768 <= bounds.2 <= bounds.3 <= 32767
}

/// Wraps both coordinates of a cell key into the world bounds.
pub fn wrap_key(cx: i32, cz: i32, bounds: (i32, i32, i32, i32)) -> (r: ChunkKey)
    requires
        bounds.0 <= bounds.1,
        bounds.2 <= bounds.3,
    ensures
        r == sp_wrap_key(cx as int, cz as int, bounds),
{
    let (minx, maxx, minz, maxz) = bounds;
    ChunkKey(wrap_coord(cx, minx, maxx), wrap_coord(cz, minz, maxz))
}

/// Wide-index variant of `wrap_key`, for cells computed from far-away
/// world positions.
pub fn wrap_key_wide(cx: i64, cz: i64, bounds: (i32, i32, i32, i32)) -> (r: ChunkKey)
    requires
        bounds.0 <= bounds.1,
        bounds.2 <= bounds.3,
        -0x2000_0000_0000_0000 <= cx <= 0x2000_0000_0000_0000,
        -0x2000_0000_0000_0000 <= cz <= 0x2000_0000_0000_0000,
    ensures
        r == sp_wrap_key(cx as int, cz as int, bounds),
{
    let (minx, maxx, minz, maxz) = bounds;
    ChunkKey(wrap_coord_wide(cx, minx, maxx), wrap_coord_wide(cz, minz, maxz))
}

/// Maps a world coordinate to the index of the cell that contains it.
pub open spec fn sp_world_to_cell(x: int, span: int) -> int
    recommends
        span > 0,
{
    x / span
}

/// Coordinate round-trip: a world point lies within the span of the cell
/// it maps to, so mapping to a cell and recomputing the cell's origin
/// never loses the point.
pub proof fn lemma_cell_round_trip(x: int, span: int)
    requires
        span > 0,
    ensures
        sp_world_to_cell(x, span) * span <= x < (sp_world_to_cell(x, span) + 1) * span,
{
    lemma_fundamental_div_mod(x, span);
    let c = x / span;
    assert(c * span <= x < (c + 1) * span) by (nonlinear_arith)
        requires
            x == span * c + x % span,
            0 <= x % span < span,
    ;
}

/// One resident cell of the streaming cache.
pub struct LoadedCell {
    pub key: ChunkKey,
    pub placements: Vec<RuntimePlacement>,
}

/// One registered observer: its identifier and world position (x, z) in
/// milli-units.
#[derive(Copy, Clone, PartialEq, Eq, Structural, Debug)]
pub struct Viewer {
    pub id: ViewerId,
    pub x: i64,
    pub z: i64,
}

/// Largest world position an observer may be registered at.
pub const VIEWER_POS_MAX: i64 = 1_000_000_000_000_000_000;

/// An observer position within the supported range.
pub open spec fn sp_viewer_wf(v: Viewer) -> bool {
    &&& -VIEWER_POS_MAX <= v.x <= VIEWER_POS_MAX
    &&& -VIEWER_POS_MAX <= v.z <= VIEWER_POS_MAX
}

/// A cell set holds the key.
pub open spec fn sp_contains_key(cells: Seq<LoadedCell>, k: ChunkKey) -> bool {
    exists|i: int| 0 <= i < cells.len() && (#[trigger] cells[i]).key == k
}

/// `cell` appears (key and content) in the cell list `orig`.
pub open spec fn sp_cell_from(orig: Seq<LoadedCell>, cell: LoadedCell) -> bool {
    exists|j: int|
        0 <= j < orig.len() && (#[trigger] orig[j]).key == cell.key
            && orig[j].placements@ == cell.placements@
}

/// The cell column an x coordinate falls in.
pub open spec fn sp_cell_x(p: &CityGenParams, x: i64) -> int {
    sp_world_to_cell(x as int, sp_chunk_span_x(p))
}

/// The cell row a z coordinate falls in.
pub open spec fn sp_cell_z(p: &CityGenParams, z: i64) -> int {
    sp_world_to_cell(z as int, sp_chunk_span_z(p))
}

/// The wrapped key of the cell at offset `(dx, dz)` from the cell of
/// observer `vi`.
pub open spec fn sp_window_key(
    p: &CityGenParams,
    bounds: (i32, i32, i32, i32),
    vs: Seq<Viewer>,
    vi: int,
    dx: int,
    dz: int,
) -> ChunkKey {
    sp_wrap_key(sp_cell_x(p, vs[vi].x) + dx, sp_cell_z(p, vs[vi].z) + dz, bounds)
}

/// A cell key lies within radius `radius` (in cells, wrapped into the
/// world bounds) of some observer in `vs`.
pub open spec fn sp_key_needed(
    p: &CityGenParams,
    bounds: (i32, i32, i32, i32),
    vs: Seq<Viewer>,
    radius: int,
    k: ChunkKey,
) -> bool {
    exists|vi: int, dx: int, dz: int|
        0 <= vi < vs.len() && -radius <= dx <= radius && -radius <= dz <= radius && k
            == #[trigger] sp_window_key(p, bounds, vs, vi, dx, dz)
}

/// Number of cells in one observer's square window.
pub open spec fn sp_window_area(radius: int) -> int {
    (2 * radius + 1) * (2 * radius + 1)
}

/// The window key visited at linear step `t` of the raster walk: steps
/// are grouped by observer, and within an observer the window is walked
/// row by row (`dz` outer, `dx` inner).
pub open spec fn sp_window_step_key(
    p: &CityGenParams,
    bounds: (i32, i32, i32, i32),
    vs: Seq<Viewer>,
    radius: int,
    t: int,
) -> ChunkKey {
    let side = 2 * radius + 1;
    let w = side * side;
    let vi = t / w;
    let a = t % w;
    sp_window_key(p, bounds, vs, vi, a % side - radius, a / side - radius)
}

/// The key list after the first `n` raster steps, each key kept only at
/// its first appearance.
pub open spec fn sp_window_list_upto(
    p: &CityGenParams,
    bounds: (i32, i32, i32, i32),
    vs: Seq<Viewer>,
    radius: int,
    n: nat,
) -> Seq<ChunkKey>
    decreases n,
{
    if n == 0 {
        Seq::empty()
    } else {
        let prev = sp_window_list_upto(p, bounds, vs, radius, (n - 1) as nat);
        let k = sp_window_step_key(p, bounds, vs, radius, n - 1);
        if prev.contains(k) {
            prev
        } else {
            prev.push(k)
        }
    }
}

/// The deduplicated union of the observers' windows, in first-seen
/// raster order: the exact key list the streaming pass walks.
pub open spec fn sp_window_list(
    p: &CityGenParams,
    bounds: (i32, i32, i32, i32),
    vs: Seq<Viewer>,
    radius: int,
) -> Seq<ChunkKey> {
    sp_window_list_upto(p, bounds, vs, radius, (vs.len() * sp_window_area(radius)) as nat)
}

/// Owner of the active cell set: tracks observers, fills and evicts
/// cells, applies floating-origin shifts and runs the churn pass.
pub struct ChunkManager {
    pub params: CityGenParams,
    pub chunk_radius: i32,
    pub bounds: (i32, i32, i32, i32),
    pub loaded: Vec<LoadedCell>,
    pub viewers: Vec<Viewer>,
    pub store_prefix: String,
    pub bake_on_miss: bool,
    pub world_span_x: i64,
    pub world_span_z: i64,
}

impl ChunkManager {
    /// Well-formedness: valid parameters and bounds, consistent cached
    /// spans, each cell key resident at most once, and observers with
    /// unique identifiers and in-range positions.
    pub open spec fn wf(&self) -> bool {
        &&& self.params.wf()
        &&& 1 <= self.chunk_radius
        &&& sp_bounds_wf(self.bounds)
        &&& self.world_span_x == sp_chunk_span_x(&self.params) * (self.bounds.1
            - self.bounds.0 + 1)
        &&& self.world_span_z == sp_chunk_span_z(&self.params) * (self.bounds.3
            - self.bounds.2 + 1)
        &&& forall|i: int, j: int|
            0 <= i < j < self.loaded@.len() ==> (#[trigger] self.loaded@[i]).key != (
            #[trigger] self.loaded@[j]).key
        &&& forall|i: int|
            0 <= i < self.viewers@.len() ==> sp_viewer_wf(#[trigger] self.viewers@[i])
        &&& forall|i: int, j: int|
            0 <= i < j < self.viewers@.len() ==> (#[trigger] self.viewers@[i]).id != (
            #[trigger] self.viewers@[j]).id
    }

    /// Creates an empty manager.  The streaming radius is the configured
    /// one, floored at 1.
    pub fn new(
        params: CityGenParams,
        chunk_radius: i32,
        bounds: (i32, i32, i32, i32),
        bake_on_miss: bool,
        store_prefix: &str,
    ) -> (r: Self)
        requires
            params.wf(),
            sp_bounds_wf(bounds),
        ensures
            r.wf(),
            r.params == params,
            r.bounds == bounds,
            r.bake_on_miss == bake_on_miss,
            r.chunk_radius == (if chunk_radius < 1 {
                1i32
            } else {
                chunk_radius
            }),
            r.loaded@.len() == 0,
            r.viewers@.len() == 0,
            r.store_prefix@ == store_prefix@,
    {
        let (cw, cd) = chunk_world_span(&params);
        let ncols: i64 = bounds.1 as i64 - bounds.0 as i64 + 1;
        let nrows: i64 = bounds.3 as i64 - bounds.2 as i64 + 1;
        proof {
            assert(1 <= cw * ncols <= CHUNK_SPAN_MAX * 65536 && 1 <= cd * nrows
                <= CHUNK_SPAN_MAX * 65536) by (nonlinear_arith)
                requires
                    1 <= cw as int <= CHUNK_SPAN_MAX as int,
                    1 <= cd as int <= CHUNK_SPAN_MAX as int,
                    1 <= ncols as int <= 65536,
                    1 <= nrows as int <= 65536,
            ;
        }
        let radius = if chunk_radius < 1 {
            1
        } else {
            chunk_radius
        };
        ChunkManager {
            params,
            chunk_radius: radius,
            bounds,
            loaded: Vec::new(),
            viewers: Vec::new(),
            store_prefix: String::from_str(store_prefix),
            bake_on_miss,
            world_span_x: cw * ncols,
            world_span_z: cd * nrows,
        }
    }

    /// Size of the whole (toroidal) world in milli-units.
    pub fn world_span(&self) -> (r: (i64, i64))
        ensures
            r == (self.world_span_x, self.world_span_z),
    {
        (self.world_span_x, self.world_span_z)
    }

    /// The placements of one resident cell, if resident.
    pub fn get_cell(&self, key: ChunkKey) -> (r: Option<&Vec<RuntimePlacement>>)
        ensures
            match r {
                Some(v) => exists|i: int|
                    0 <= i < self.loaded@.len() && (#[trigger] self.loaded@[i]).key
                        == key && v@ == self.loaded@[i].placements@,
                None => !sp_contains_key(self.loaded@, key),
            },
    {
        let mut i: usize = 0;
        while i < self.loaded.len()
            invariant
                i <= self.loaded@.len(),
                forall|j: int| 0 <= j < i ==> (#[trigger] self.loaded@[j]).key != key,
            decreases self.loaded@.len() - i,
        {
            if self.loaded[i].key == key {
                return Some(&self.loaded[i].placements);
            }
            i += 1;
        }
        None
    }

    /// Registers or moves an observer: updates its entry if present,
    /// appends it otherwise.
    pub fn set_viewer(&mut self, id: ViewerId, world_x: i64, world_z: i64)
        requires
            old(self).wf(),
            -VIEWER_POS_MAX <= world_x <= VIEWER_POS_MAX,
            -VIEWER_POS_MAX <= world_z <= VIEWER_POS_MAX,
        ensures
            final(self).wf(),
            final(self).params == old(self).params,
            final(self).bounds == old(self).bounds,
            final(self).chunk_radius == old(self).chunk_radius,
            final(self).bake_on_miss == old(self).bake_on_miss,
            final(self).world_span_x == old(self).world_span_x,
            final(self).world_span_z == old(self).world_span_z,
            final(self).loaded == old(self).loaded,
            final(self).store_prefix == old(self).store_prefix,
            ({
                let nv = (Viewer { id, x: world_x, z: world_z });
                (exists|j: int|
                    0 <= j < old(self).viewers@.len() && (#[trigger] old(
                        self,
                    ).viewers@[j]).id == id && final(self).viewers@ == old(
                        self,
                    ).viewers@.update(j, nv)) || ((forall|j: int|
                    0 <= j < old(self).viewers@.len() ==> (#[trigger] old(
                        self,
                    ).viewers@[j]).id != id) && final(self).viewers@ == old(
                    self,
                ).viewers@.push(nv))
            }),
    {
        let nv = Viewer { id, x: world_x, z: world_z };
        let mut i: usize = 0;
        while i < self.viewers.len()
            invariant
                old(self).wf(),
                -VIEWER_POS_MAX <= world_x <= VIEWER_POS_MAX,
                -VIEWER_POS_MAX <= world_z <= VIEWER_POS_MAX,
                *self == *old(self),
                nv == (Viewer { id, x: world_x, z: world_z }),
                i <= self.viewers@.len(),
                forall|j: int| 0 <= j < i ==> (#[trigger] self.viewers@[j]).id != id,
            decreases self.viewers@.len() - i,
        {
            if self.viewers[i].id == id {
                self.viewers[i] = nv;
                return ;
            }
            i += 1;
        }
        self.viewers.push(nv);
    }
}

/// A placement's center can be shifted by `off` without leaving `i64`.
pub open spec fn sp_shift_fits_pl(p: RuntimePlacement, off: Vec3i) -> bool {
    &&& i64::MIN <= p.center.x - off.x <= i64::MAX
    &&& i64::MIN <= p.center.y - off.y <= i64::MAX
    &&& i64::MIN <= p.center.z - off.z <= i64::MAX
}

/// The placement after subtracting `off` from its center.
pub open spec fn sp_shifted_pl(p: RuntimePlacement, off: Vec3i) -> RuntimePlacement {
    RuntimePlacement {
        center: Vec3i {
            x: (p.center.x - off.x) as i64,
            y: (p.center.y - off.y) as i64,
            z: (p.center.z - off.z) as i64,
        },
        scale: p.scale,
        archetype_id: p.archetype_id,
    }
}

impl ChunkManager {
    /// The shift keeps every placement center in `i64` and every
    /// observer within its supported position range.
    pub open spec fn sp_shift_fits(&self, off: Vec3i) -> bool {
        &&& forall|i: int, j: int|
            0 <= i < self.loaded@.len() && 0 <= j < self.loaded@[i].placements@.len()
                ==> sp_shift_fits_pl(#[trigger] self.loaded@[i].placements@[j], off)
        &&& forall|i: int|
            0 <= i < self.viewers@.len() ==> {
                let v = #[trigger] self.viewers@[i];
                &&& -VIEWER_POS_MAX <= v.x - off.x <= VIEWER_POS_MAX
                &&& -VIEWER_POS_MAX <= v.z - off.z <= VIEWER_POS_MAX
            }
    }

    /// `b` is `a` with every placement center and observer position
    /// shifted by `-off` (the renormalization relation).
    pub open spec fn sp_shift_rel(a: &ChunkManager, b: &ChunkManager, off: Vec3i) -> bool {
        &&& b.loaded@.len() == a.loaded@.len()
        &&& forall|i: int|
            0 <= i < a.loaded@.len() ==> (#[trigger] b.loaded@[i]).key
                == a.loaded@[i].key && b.loaded@[i].placements@.len()
                == a.loaded@[i].placements@.len()
        &&& forall|i: int, j: int|
            0 <= i < a.loaded@.len() && 0 <= j < a.loaded@[i].placements@.len() ==> (
            #[trigger] b.loaded@[i].placements@[j]) == sp_shifted_pl(
                a.loaded@[i].placements@[j],
                off,
            )
        &&& b.viewers@.len() == a.viewers@.len()
        &&& forall|i: int|
            0 <= i < a.viewers@.len() ==> (#[trigger] b.viewers@[i]) == (Viewer {
                id: a.viewers@[i].id,
                x: (a.viewers@[i].x - off.x) as i64,
                z: (a.viewers@[i].z - off.z) as i64,
            })
    }

    /// Whether `apply_shift(off)` is safe on the current state: no
    /// placement center leaves `i64` and no observer leaves its range.
    pub fn shift_fits(&self, off: Vec3i) -> (r: bool)
        ensures
            r == self.sp_shift_fits(off),
    {
        let mut ci: usize = 0;
        while ci < self.loaded.len()
            invariant
                ci <= self.loaded@.len(),
                forall|i: int, j: int|
                    0 <= i < ci && 0 <= j < self.loaded@[i].placements@.len()
                        ==> sp_shift_fits_pl(
                        #[trigger] self.loaded@[i].placements@[j],
                        off,
                    ),
            decreases self.loaded@.len() - ci,
        {
            let n = self.loaded[ci].placements.len();
            let mut j: usize = 0;
            while j < n
                invariant
                    ci < self.loaded@.len(),
                    n == self.loaded@[ci as int].placements@.len(),
                    j <= n,
                    forall|jj: int|
                        0 <= jj < j ==> sp_shift_fits_pl(
                            #[trigger] self.loaded@[ci as int].placements@[jj],
                            off,
                        ),
                decreases n - j,
            {
                let p = self.loaded[ci].placements[j];
                let ok_x = if off.x >= 0 {
                    p.center.x >= i64::MIN + off.x
                } else {
                    p.center.x <= i64::MAX + off.x
                };
                let ok_y = if off.y >= 0 {
                    p.center.y >= i64::MIN + off.y
                } else {
                    p.center.y <= i64::MAX + off.y
                };
                let ok_z = if off.z >= 0 {
                    p.center.z >= i64::MIN + off.z
                } else {
                    p.center.z <= i64::MAX + off.z
                };
                if !(ok_x && ok_y && ok_z) {
                    return false;
                }
                j += 1;
            }
            ci += 1;
        }
        let mut vi: usize = 0;
        while vi < self.viewers.len()
            invariant
                forall|i: int, j: int|
                    0 <= i < self.loaded@.len() && 0 <= j
                        < self.loaded@[i].placements@.len() ==> sp_shift_fits_pl(
                        #[trigger] self.loaded@[i].placements@[j],
                        off,
                    ),
                vi <= self.viewers@.len(),
                forall|i: int|
                    0 <= i < vi ==> {
                        let v = #[trigger] self.viewers@[i];
                        &&& -VIEWER_POS_MAX <= v.x - off.x <= VIEWER_POS_MAX
                        &&& -VIEWER_POS_MAX <= v.z - off.z <= VIEWER_POS_MAX
                    },
            decreases self.viewers@.len() - vi,
        {
            let v = self.viewers[vi];
            let dx: i128 = v.x as i128 - off.x as i128;
            let dz: i128 = v.z as i128 - off.z as i128;
            let lim: i128 = VIEWER_POS_MAX as i128;
            if dx < -lim || dx > lim || dz < -lim || dz > lim {
                return false;
            }
            vi += 1;
        }
        true
    }

    /// Floating-origin shift: subtracts `off` from every placement
    /// center in every resident cell and from every observer position,
    /// preserving all relative positions.
    pub fn apply_shift(&mut self, off: Vec3i)
        requires
            old(self).wf(),
            old(self).sp_shift_fits(off),
        ensures
            final(self).wf(),
            final(self).params == old(self).params,
            final(self).bounds == old(self).bounds,
            final(self).chunk_radius == old(self).chunk_radius,
            final(self).bake_on_miss == old(self).bake_on_miss,
            final(self).world_span_x == old(self).world_span_x,
            final(self).world_span_z == old(self).world_span_z,
            final(self).store_prefix == old(self).store_prefix,
            ChunkManager::sp_shift_rel(old(self), final(self), off),
    {
        let mut ci: usize = 0;
        while ci < self.loaded.len()
            invariant
                old(self).wf(),
                old(self).sp_shift_fits(off),
                self.params == old(self).params,
                self.bounds == old(self).bounds,
                self.chunk_radius == old(self).chunk_radius,
                self.bake_on_miss == old(self).bake_on_miss,
                self.world_span_x == old(self).world_span_x,
                self.world_span_z == old(self).world_span_z,
                self.store_prefix == old(self).store_prefix,
                self.viewers == old(self).viewers,
                ci <= self.loaded@.len(),
                self.loaded@.len() == old(self).loaded@.len(),
                forall|i: int|
                    0 <= i < old(self).loaded@.len() ==> (#[trigger] self.loaded@[i]).key
                        == old(self).loaded@[i].key
                        && self.loaded@[i].placements@.len() == old(
                        self,
                    ).loaded@[i].placements@.len(),
                forall|i: int, j: int|
                    0 <= i < ci && 0 <= j < old(self).loaded@[i].placements@.len() ==> (
                    #[trigger] self.loaded@[i].placements@[j]) == sp_shifted_pl(
                        old(self).loaded@[i].placements@[j],
                        off,
                    ),
                forall|i: int, j: int|
                    ci <= i < old(self).loaded@.len() && 0 <= j < old(
                        self,
                    ).loaded@[i].placements@.len() ==> (
                    #[trigger] self.loaded@[i].placements@[j]) == old(
                        self,
                    ).loaded@[i].placements@[j],
            decreases self.loaded@.len() - ci,
        {
            let n = self.loaded[ci].placements.len();
            let k = self.loaded[ci].key;
            let mut newp: Vec<RuntimePlacement> = Vec::new();
            let mut j: usize = 0;
            while j < n
                invariant
                    old(self).sp_shift_fits(off),
                    ci < self.loaded@.len(),
                    self.loaded@.len() == old(self).loaded@.len(),
                    n == self.loaded@[ci as int].placements@.len(),
                    n == old(self).loaded@[ci as int].placements@.len(),
                    forall|jj: int|
                        0 <= jj < n ==> (#[trigger] self.loaded@[ci as int].placements@[jj])
                            == old(self).loaded@[ci as int].placements@[jj],
                    j <= n,
                    newp@.len() == j,
                    forall|jj: int|
                        0 <= jj < j ==> (#[trigger] newp@[jj]) == sp_shifted_pl(
                            old(self).loaded@[ci as int].placements@[jj],
                            off,
                        ),
                decreases n - j,
            {
                let p = self.loaded[ci].placements[j];
                proof {
                    assert(self.loaded@[ci as int].placements@[j as int] == old(
                        self,
                    ).loaded@[ci as int].placements@[j as int]);
                    assert(sp_shift_fits_pl(
                        old(self).loaded@[ci as int].placements@[j as int],
                        off,
                    ));
                }
                newp.push(
                    RuntimePlacement {
                        center: Vec3i {
                            x: p.center.x - off.x,
                            y: p.center.y - off.y,
                            z: p.center.z - off.z,
                        },
                        scale: p.scale,
                        archetype_id: p.archetype_id,
                    },
                );
                j += 1;
            }
            self.loaded[ci] = LoadedCell { key: k, placements: newp };
            ci += 1;
        }
        let mut vi: usize = 0;
        while vi < self.viewers.len()
            invariant
                old(self).wf(),
                old(self).sp_shift_fits(off),
                self.params == old(self).params,
                self.bounds == old(self).bounds,
                self.chunk_radius == old(self).chunk_radius,
                self.bake_on_miss == old(self).bake_on_miss,
                self.world_span_x == old(self).world_span_x,
                self.world_span_z == old(self).world_span_z,
                self.store_prefix == old(self).store_prefix,
                self.loaded@.len() == old(self).loaded@.len(),
                forall|i: int|
                    0 <= i < old(self).loaded@.len() ==> (#[trigger] self.loaded@[i]).key
                        == old(self).loaded@[i].key
                        && self.loaded@[i].placements@.len() == old(
                        self,
                    ).loaded@[i].placements@.len(),
                forall|i: int, j: int|
                    0 <= i < old(self).loaded@.len() && 0 <= j < old(
                        self,
                    ).loaded@[i].placements@.len() ==> (
                    #[trigger] self.loaded@[i].placements@[j]) == sp_shifted_pl(
                        old(self).loaded@[i].placements@[j],
                        off,
                    ),
                vi <= self.viewers@.len(),
                self.viewers@.len() == old(self).viewers@.len(),
                forall|i: int|
                    0 <= i < vi ==> (#[trigger] self.viewers@[i]) == (Viewer {
                        id: old(self).viewers@[i].id,
                        x: (old(self).viewers@[i].x - off.x) as i64,
                        z: (old(self).viewers@[i].z - off.z) as i64,
                    }),
                forall|i: int|
                    vi <= i < old(self).viewers@.len() ==> (#[trigger] self.viewers@[i])
                        == old(self).viewers@[i],
            decreases self.viewers@.len() - vi,
        {
            let v = self.viewers[vi];
            self.viewers[vi] = Viewer { id: v.id, x: v.x - off.x, z: v.z - off.z };
            vi += 1;
        }
    }
}

/// The runtime form of a designed placement.
pub open spec fn sp_rt(p: crate::designer::Placement) -> RuntimePlacement {
    RuntimePlacement { center: p.center, scale: p.scale, archetype_id: p.archetype_id }
}

/// The runtime form of a designed placement list.
pub open spec fn sp_rt_seq(s: Seq<crate::designer::Placement>) -> Seq<RuntimePlacement> {
    s.map_values(|p: crate::designer::Placement| sp_rt(p))
}

/// Converts designed placements to their runtime form.
fn to_runtime(v: &Vec<crate::designer::Placement>) -> (r: Vec<RuntimePlacement>)
    ensures
        r@ == sp_rt_seq(v@),
{
    let mut out: Vec<RuntimePlacement> = Vec::new();
    let mut i: usize = 0;
    while i < v.len()
        invariant
            i <= v@.len(),
            out@ =~= sp_rt_seq(v@).take(i as int),
        decreases v@.len() - i,
    {
        let p = v[i];
        out.push(
            RuntimePlacement {
                center: p.center,
                scale: p.scale,
                archetype_id: p.archetype_id,
            },
        );
        proof {
            assert(out@ =~= sp_rt_seq(v@).take(i + 1));
        }
        i += 1;
    }
    proof {
        assert(sp_rt_seq(v@).take(v@.len() as int) =~= sp_rt_seq(v@));
    }
    out
}

/// Whether a key list holds `k`.
fn contains_chunk_key(v: &Vec<ChunkKey>, k: ChunkKey) -> (r: bool)
    ensures
        r == v@.contains(k),
{
    let mut i: usize = 0;
    while i < v.len()
        invariant
            i <= v@.len(),
            forall|j: int| 0 <= j < i ==> v@[j] != k,
        decreases v@.len() - i,
    {
        if v[i] == k {
            return true;
        }
        i += 1;
    }
    false
}

impl ChunkManager {
    /// Index of the resident cell with this key, if any.
    pub fn find_cell_index(&self, key: ChunkKey) -> (r: Option<usize>)
        ensures
            match r {
                Some(i) => i < self.loaded@.len() && self.loaded@[i as int].key == key,
                None => !sp_contains_key(self.loaded@, key),
            },
    {
        let mut i: usize = 0;
        while i < self.loaded.len()
            invariant
                i <= self.loaded@.len(),
                forall|j: int| 0 <= j < i ==> (#[trigger] self.loaded@[j]).key != key,
            decreases self.loaded@.len() - i,
        {
            if self.loaded[i].key == key {
                return Some(i);
            }
            i += 1;
        }
        None
    }

    /// The deduplicated list of every cell key within `radius` cells of
    /// some observer, wrapped into the world bounds: the union of the
    /// observers' square windows, each key at its first appearance in
    /// raster order — exactly `sp_window_list`.
    pub fn window_keys(&self, radius: i32) -> (r: Vec<ChunkKey>)
        requires
            self.wf(),
            0 <= radius,
        ensures
            r@ == sp_window_list(&self.params, self.bounds, self.viewers@, radius as int),
            forall|i: int, j: int| 0 <= i < j < r@.len() ==> r@[i] != r@[j],
            forall|i: int|
                0 <= i < r@.len() ==> sp_key_needed(&self.params, self.bounds, 
                    self.viewers@,
                    radius as int,
                    #[trigger] r@[i],
                ),
            forall|k: ChunkKey|
                sp_key_needed(&self.params, self.bounds, self.viewers@, radius as int, k) ==> r@.contains(k),
            forall|i: int|
                0 <= i < r@.len() ==> self.bounds.0 <= (#[trigger] r@[i]).0
                    <= self.bounds.1 && self.bounds.2 <= r@[i].1 <= self.bounds.3,
            r@.len() <= self.viewers@.len() * sp_window_area(radius as int),
    {
        let side: u64 = 2 * (radius as u64) + 1;
        proof {
            assert(side * side <= u64::MAX) by (nonlinear_arith)
                requires
                    1 <= side as int <= 0xFFFF_FFFFu64,
            ;
        }
        let w: u64 = side * side;
        let (cspan_x, cspan_z) = chunk_world_span(&self.params);
        let mut out: Vec<ChunkKey> = Vec::new();
        let mut vi: usize = 0;
        while vi < self.viewers.len()
            invariant
                self.wf(),
                0 <= radius,
                side == 2 * radius + 1,
                w == side * side,
                w as int == sp_window_area(radius as int),
                cspan_x == sp_chunk_span_x(&self.params),
                cspan_z == sp_chunk_span_z(&self.params),
                1 <= cspan_x,
                1 <= cspan_z,
                vi <= self.viewers@.len(),
                out@ == sp_window_list_upto(
                    &self.params,
                    self.bounds,
                    self.viewers@,
                    radius as int,
                    (vi * (w as int)) as nat,
                ),
                forall|i: int, j: int| 0 <= i < j < out@.len() ==> out@[i] != out@[j],
                forall|i: int|
                    0 <= i < out@.len() ==> sp_key_needed(&self.params, self.bounds, 
                        self.viewers@,
                        radius as int,
                        #[trigger] out@[i],
                    ),
                forall|i: int|
                    0 <= i < out@.len() ==> self.bounds.0 <= (#[trigger] out@[i]).0
                        <= self.bounds.1 && self.bounds.2 <= out@[i].1 <= self.bounds.3,
                forall|v: int, dx: int, dz: int|
                    0 <= v < vi && -radius <= dx <= radius && -radius <= dz <= radius
                        ==> out@.contains(
                        #[trigger] sp_window_key(&self.params, self.bounds, self.viewers@, v, dx, dz),
                    ),
                out@.len() <= vi * (w as int),
            decreases self.viewers@.len() - vi,
        {
            let v = self.viewers[vi];
            let vcx = floor_div(v.x, cspan_x);
            let vcz = floor_div(v.z, cspan_z);
            proof {
                assert(-VIEWER_POS_MAX <= vcx <= VIEWER_POS_MAX) by (nonlinear_arith)
                    requires
                        vcx == v.x as int / cspan_x as int,
                        1 <= cspan_x as int,
                        -VIEWER_POS_MAX <= v.x <= VIEWER_POS_MAX,
                ;
                assert(-VIEWER_POS_MAX <= vcz <= VIEWER_POS_MAX) by (nonlinear_arith)
                    requires
                        vcz == v.z as int / cspan_z as int,
                        1 <= cspan_z as int,
                        -VIEWER_POS_MAX <= v.z <= VIEWER_POS_MAX,
                ;
            }
            let mut a: u64 = 0;
            while a < w
                invariant
                    self.wf(),
                    0 <= radius,
                    side == 2 * radius + 1,
                    w == side * side,
                    w as int == sp_window_area(radius as int),
                    vi < self.viewers@.len(),
                    v == self.viewers@[vi as int],
                    vcx == sp_cell_x(&self.params, v.x),
                    vcz == sp_cell_z(&self.params, v.z),
                    -VIEWER_POS_MAX <= vcx <= VIEWER_POS_MAX,
                    -VIEWER_POS_MAX <= vcz <= VIEWER_POS_MAX,
                    a <= w,
                    out@ == sp_window_list_upto(
                        &self.params,
                        self.bounds,
                        self.viewers@,
                        radius as int,
                        (vi * (w as int) + a as int) as nat,
                    ),
                    forall|i: int, j: int| 0 <= i < j < out@.len() ==> out@[i] != out@[j],
                    forall|i: int|
                        0 <= i < out@.len() ==> sp_key_needed(&self.params, self.bounds, 
                            self.viewers@,
                            radius as int,
                            #[trigger] out@[i],
                        ),
                    forall|i: int|
                        0 <= i < out@.len() ==> self.bounds.0 <= (#[trigger] out@[i]).0
                            <= self.bounds.1 && self.bounds.2 <= out@[i].1
                            <= self.bounds.3,
                    forall|vv: int, dx: int, dz: int|
                        0 <= vv < vi && -radius <= dx <= radius && -radius <= dz
                            <= radius ==> out@.contains(
                            #[trigger] sp_window_key(&self.params, self.bounds, self.viewers@, vv, dx, dz),
                        ),
                    forall|dx: int, dz: int|
                        -radius <= dx <= radius && -radius <= dz <= radius && (dz
                            + radius) * side + (dx + radius) < a ==> out@.contains(
                            #[trigger] sp_window_key(&self.params, self.bounds, 
                                self.viewers@,
                                vi as int,
                                dx,
                                dz,
                            ),
                        ),
                    out@.len() <= vi * (w as int) + a,
                decreases w - a,
            {
                proof {
                    assert(a as int / side as int <= 2 * radius && a as int % side as int
                        <= 2 * radius) by (nonlinear_arith)
                        requires
                            side as int == 2 * radius + 1,
                            w as int == (side as int) * (side as int),
                            0 <= (a as int) && (a as int) < (w as int),
                            0 < side as int,
                            0 <= radius,
                    ;
                }
                let dz: i64 = (a / side) as i64 - radius as i64;
                let dx: i64 = (a % side) as i64 - radius as i64;
                let kk = wrap_key_wide(vcx + dx, vcz + dz, self.bounds);
                proof {
                    assert(kk == sp_window_key(&self.params, self.bounds, self.viewers@, vi as int, dx as int,
                        dz as int));
                    let t = vi * (w as int) + a as int;
                    vstd::arithmetic::div_mod::lemma_fundamental_div_mod_converse(
                        t,
                        w as int,
                        vi as int,
                        a as int,
                    );
                    assert(kk == sp_window_step_key(
                        &self.params,
                        self.bounds,
                        self.viewers@,
                        radius as int,
                        t,
                    ));
                }
                let ghost out0 = out@;
                if !contains_chunk_key(&out, kk) {
                    out.push(kk);
                    proof {
                        assert(out@[out@.len() - 1] == kk);
                        assert(sp_key_needed(&self.params, self.bounds, self.viewers@, radius as int, kk));
                    }
                }
                proof {
                    assert forall|k2: ChunkKey| out0.contains(k2) implies out@.contains(
                        k2,
                    ) by {
                        let idx = choose|ii: int|
                            0 <= ii < out0.len() && out0[ii] == k2;
                        assert(out@[idx] == k2);
                    }
                    assert(out@.contains(kk));
                    assert(out@ == sp_window_list_upto(
                        &self.params,
                        self.bounds,
                        self.viewers@,
                        radius as int,
                        (vi * (w as int) + a as int + 1) as nat,
                    ));
                    assert forall|dx2: int, dz2: int|
                        -radius <= dx2 <= radius && -radius <= dz2 <= radius && (dz2
                            + radius) * side + (dx2 + radius) < a + 1 implies out@.contains(
                        #[trigger] sp_window_key(&self.params, self.bounds, self.viewers@, vi as int, dx2, dz2),
                    ) by {
                        if (dz2 + radius) * side + (dx2 + radius) == a {
                            vstd::arithmetic::div_mod::lemma_fundamental_div_mod_converse(
                                a as int,
                                side as int,
                                dz2 + radius,
                                dx2 + radius,
                            );
                            assert(dz2 == dz && dx2 == dx);
                        }
                    }
                }
                a += 1;
            }
            proof {
                assert forall|dx: int, dz: int|
                    -radius <= dx <= radius && -radius <= dz <= radius implies out@.contains(
                    #[trigger] sp_window_key(&self.params, self.bounds, self.viewers@, vi as int, dx, dz),
                ) by {
                    assert((dz + radius) * side + (dx + radius) < w as int)
                        by (nonlinear_arith)
                        requires
                            side as int == 2 * radius + 1,
                            w as int == (side as int) * (side as int),
                            -radius <= dx <= radius,
                            -radius <= dz <= radius,
                    ;
                }
                assert(vi * (w as int) + w as int == (vi + 1) * (w as int))
                    by (nonlinear_arith);
            }
            vi += 1;
        }
        proof {
            assert forall|k: ChunkKey|
                sp_key_needed(&self.params, self.bounds, self.viewers@, radius as int, k) implies out@.contains(
                k,
            ) by {
                let (vv, dx, dz) = choose|vv: int, dx: int, dz: int|
                    0 <= vv < self.viewers@.len() && -radius <= dx <= radius && -radius
                        <= dz <= radius && k == #[trigger] sp_window_key(&self.params, self.bounds, 
                        self.viewers@,
                        vv,
                        dx,
                        dz,
                    );
                assert(out@.contains(sp_window_key(&self.params, self.bounds, self.viewers@, vv, dx, dz)));
            }
            assert((self.viewers@.len() * (w as int)) as nat == (self.viewers@.len()
                * sp_window_area(radius as int)) as nat);
        }
        out
    }
}

/// Index of the first observer entry with this identifier.
fn find_viewer_index(vs: &Vec<Viewer>, id: ViewerId) -> (r: Option<usize>)
    ensures
        match r {
            Some(i) => i < vs@.len() && vs@[i as int].id == id,
            None => forall|j: int| 0 <= j < vs@.len() ==> (#[trigger] vs@[j]).id != id,
        },
{
    let mut i: usize = 0;
    while i < vs.len()
        invariant
            i <= vs@.len(),
            forall|j: int| 0 <= j < i ==> (#[trigger] vs@[j]).id != id,
        decreases vs@.len() - i,
    {
        if vs[i].id == id {
            return Some(i);
        }
        i += 1;
    }
    None
}

/// Index of the first cell with this key in a cell list.
fn find_in_pool(pool: &Vec<LoadedCell>, key: ChunkKey) -> (r: Option<usize>)
    ensures
        match r {
            Some(i) => i < pool@.len() && pool@[i as int].key == key,
            None => !sp_contains_key(pool@, key),
        },
{
    let mut i: usize = 0;
    while i < pool.len()
        invariant
            i <= pool@.len(),
            forall|j: int| 0 <= j < i ==> (#[trigger] pool@[j]).key != key,
        decreases pool@.len() - i,
    {
        if pool[i].key == key {
            return Some(i);
        }
        i += 1;
    }
    None
}

impl ChunkManager {
    /// A filled cell's content is legitimate: carried over from the
    /// previous active set, decoded from a well-formed stored record for
    /// this key, or freshly designed for this key.  (The record branch
    /// cannot be tied to the backend's actual content: backends
    /// implement `ChunkStore` outside the verifier, so the contract
    /// states what holds of every answer they may give.)
    pub open spec fn sp_cell_content_ok<D: CityDesigner>(
        &self,
        designer: &D,
        assets: &AssetLibrary,
        cell: &LoadedCell,
    ) -> bool {
        ||| (exists|j: int|
            0 <= j < self.loaded@.len() && (#[trigger] self.loaded@[j]).key == cell.key
                && self.loaded@[j].placements@ == cell.placements@)
        ||| (exists|b: Seq<u8>|
            crate::city_store::sp_decode(b) == Some(
                (cell.key.0, cell.key.1, cell.placements@),
            ))
        ||| cell.placements@ == sp_rt_seq(
            designer.sp_design_of(
                &(DesignContext { cx: cell.key.0, cz: cell.key.1, seed: self.params.seed }),
                assets,
            ),
        )
    }

    /// Streams the world for the current observers: the active set
    /// becomes exactly the union of the observers' windows; missing
    /// cells are filled from the store when a valid record exists, else
    /// freshly designed (and then saved, under the bake-on-miss policy);
    /// cells outside every window are dropped.
    pub fn ensure_for_viewers<D: CityDesigner, S: crate::city_store::ChunkStore>(
        &mut self,
        designer: &D,
        assets: &AssetLibrary,
        store: &mut S,
    )
        requires
            old(self).wf(),
            designer.wf_designer(),
            assets.wf(),
        ensures
            final(self).wf(),
            final(self).params == old(self).params,
            final(self).bounds == old(self).bounds,
            final(self).chunk_radius == old(self).chunk_radius,
            final(self).bake_on_miss == old(self).bake_on_miss,
            final(self).world_span_x == old(self).world_span_x,
            final(self).world_span_z == old(self).world_span_z,
            final(self).store_prefix == old(self).store_prefix,
            final(self).viewers == old(self).viewers,
            forall|i: int|
                0 <= i < final(self).loaded@.len() ==> sp_key_needed(&old(self).params, old(self).bounds, 
                    old(self).viewers@,
                    old(self).chunk_radius as int,
                    (#[trigger] final(self).loaded@[i]).key,
                ),
            forall|k: ChunkKey|
                sp_key_needed(&old(self).params, old(self).bounds, 
                    old(self).viewers@,
                    old(self).chunk_radius as int,
                    k,
                ) ==> sp_contains_key(final(self).loaded@, k),
            forall|i: int|
                0 <= i < final(self).loaded@.len() ==> old(self).sp_cell_content_ok(
                    designer,
                    assets,
                    &(#[trigger] final(self).loaded@[i]),
                ),
            forall|i: int|
                0 <= i < final(self).loaded@.len() && sp_contains_key(
                    old(self).loaded@,
                    (#[trigger] final(self).loaded@[i]).key,
                ) ==> sp_cell_from(old(self).loaded@, final(self).loaded@[i]),
            final(self).loaded@.len() <= old(self).viewers@.len() * ((2 * old(
                self,
            ).chunk_radius + 1) * (2 * old(self).chunk_radius + 1)),
    {
        let radius = self.chunk_radius;
        let needed = self.window_keys(radius);
        let mut pool: Vec<LoadedCell> = Vec::new();
        core::mem::swap(&mut pool, &mut self.loaded);
        proof {
            assert forall|ci: int| 0 <= ci < pool@.len() implies sp_cell_from(
                old(self).loaded@,
                #[trigger] pool@[ci],
            ) by {
                assert(old(self).loaded@[ci] == pool@[ci]);
            }
        }
        let mut new_loaded: Vec<LoadedCell> = Vec::new();
        let mut i: usize = 0;
        while i < needed.len()
            invariant
                old(self).wf(),
                designer.wf_designer(),
                assets.wf(),
                self.params == old(self).params,
                self.bounds == old(self).bounds,
                self.chunk_radius == old(self).chunk_radius,
                self.bake_on_miss == old(self).bake_on_miss,
                self.world_span_x == old(self).world_span_x,
                self.world_span_z == old(self).world_span_z,
                self.store_prefix == old(self).store_prefix,
                self.viewers == old(self).viewers,
                radius == old(self).chunk_radius,
                i <= needed@.len(),
                forall|a: int, b: int|
                    0 <= a < b < needed@.len() ==> needed@[a] != needed@[b],
                forall|a: int|
                    0 <= a < needed@.len() ==> sp_key_needed(&old(self).params, old(self).bounds, 
                        old(self).viewers@,
                        radius as int,
                        #[trigger] needed@[a],
                    ),
                forall|k: ChunkKey|
                    sp_key_needed(&old(self).params, old(self).bounds, old(self).viewers@, radius as int, k)
                        ==> needed@.contains(k),
                forall|a: int|
                    0 <= a < needed@.len() ==> old(self).bounds.0 <= (
                    #[trigger] needed@[a]).0 <= old(self).bounds.1 && old(self).bounds.2
                        <= needed@[a].1 <= old(self).bounds.3,
                needed@.len() <= old(self).viewers@.len() * ((2 * radius + 1) * (2
                    * radius + 1)),
                new_loaded@.len() == i,
                forall|j: int|
                    0 <= j < i ==> (#[trigger] new_loaded@[j]).key == needed@[j],
                forall|j: int|
                    0 <= j < i ==> old(self).sp_cell_content_ok(
                        designer,
                        assets,
                        &(#[trigger] new_loaded@[j]),
                    ),
                forall|j: int|
                    0 <= j < i && sp_contains_key(
                        old(self).loaded@,
                        (#[trigger] new_loaded@[j]).key,
                    ) ==> sp_cell_from(old(self).loaded@, new_loaded@[j]),
                forall|ci: int|
                    0 <= ci < pool@.len() ==> sp_cell_from(
                        old(self).loaded@,
                        #[trigger] pool@[ci],
                    ),
                forall|k: ChunkKey|
                    sp_contains_key(old(self).loaded@, k) && !needed@.take(
                        i as int,
                    ).contains(k) ==> sp_contains_key(pool@, k),
            decreases needed@.len() - i,
        {
            let k = needed[i];
            let ghost pool0 = pool@;
            match find_in_pool(&pool, k) {
                Some(idx) => {
                    let cell = pool.swap_remove(idx);
                    new_loaded.push(cell);
                    proof {
                        assert forall|ci: int| 0 <= ci < pool@.len() implies sp_cell_from(
                            old(self).loaded@,
                            #[trigger] pool@[ci],
                        ) by {
                            if ci == idx {
                                assert(pool@[ci] == pool0[pool0.len() - 1]);
                            } else {
                                assert(pool@[ci] == pool0[ci]);
                            }
                        }
                        assert forall|k2: ChunkKey|
                            sp_contains_key(old(self).loaded@, k2) && !needed@.take(
                                i + 1,
                            ).contains(k2) implies sp_contains_key(pool@, k2) by {
                            assert(needed@.take(i + 1)[i as int] == needed@[i as int]);
                            assert(k2 != needed@[i as int]);
                            assert forall|a: int|
                                0 <= a < i ==> needed@.take(i as int)[a] == needed@.take(
                                i + 1,
                            )[a] by {}
                            assert(!needed@.take(i as int).contains(k2)) by {
                                if needed@.take(i as int).contains(k2) {
                                    let a = choose|a: int|
                                        0 <= a < i && needed@.take(i as int)[a] == k2;
                                    assert(needed@.take(i + 1)[a] == k2);
                                }
                            }
                            assert(sp_contains_key(pool0, k2));
                            let io = choose|io: int|
                                0 <= io < pool0.len() && (#[trigger] pool0[io]).key == k2;
                            if io == idx {
                                assert(pool0[idx as int].key == needed@[i as int]);
                            } else if io == pool0.len() - 1 {
                                assert(pool@[idx as int].key == k2);
                            } else {
                                assert(pool@[io].key == k2);
                            }
                        }
                    }
                },
                None => {
                    proof {
                        assert(needed@.take(i as int).contains(needed@[i as int])
                            == false) by {
                            if needed@.take(i as int).contains(needed@[i as int]) {
                                let a = choose|a: int|
                                    0 <= a < i && needed@.take(i as int)[a]
                                        == needed@[i as int];
                            }
                        }
                        assert(!sp_contains_key(old(self).loaded@, k));
                    }
                    let mut filled: Option<Vec<RuntimePlacement>> = None;
                    match store.load(k.0, k.1) {
                        Some(bytes) => {
                            match crate::city_store::decode_chunk(&bytes) {
                                Some(f) => {
                                    if f.cx == k.0 && f.cz == k.1 {
                                        filled = Some(f.buildings);
                                    }
                                },
                                None => {},
                            }
                        },
                        None => {},
                    }
                    match filled {
                        Some(pls) => {
                            new_loaded.push(LoadedCell { key: k, placements: pls });
                        },
                        None => {
                            let ctx = DesignContext {
                                cx: k.0,
                                cz: k.1,
                                seed: self.params.seed,
                            };
                            let pls = designer.design_chunk(&ctx, assets);
                            let rt = to_runtime(&pls);
                            if self.bake_on_miss && rt.len() <= 0xFFFF_FFFFusize {
                                let f = ChunkFile { cx: k.0, cz: k.1, buildings: rt };
                                let bytes = crate::city_store::encode_chunk(&f);
                                let _saved = store.save(k.0, k.1, &bytes);
                                new_loaded.push(
                                    LoadedCell { key: k, placements: f.buildings },
                                );
                            } else {
                                new_loaded.push(LoadedCell { key: k, placements: rt });
                            }
                        },
                    }
                    proof {
                        assert forall|k2: ChunkKey|
                            sp_contains_key(old(self).loaded@, k2) && !needed@.take(
                                i + 1,
                            ).contains(k2) implies sp_contains_key(pool@, k2) by {
                            assert(!needed@.take(i as int).contains(k2)) by {
                                if needed@.take(i as int).contains(k2) {
                                    let a = choose|a: int|
                                        0 <= a < i && needed@.take(i as int)[a] == k2;
                                    assert(needed@.take(i + 1)[a] == k2);
                                }
                            }
                        }
                    }
                },
            }
            i += 1;
        }
        self.loaded = new_loaded;
        proof {
            assert forall|k: ChunkKey|
                sp_key_needed(&old(self).params, old(self).bounds, 
                    old(self).viewers@,
                    old(self).chunk_radius as int,
                    k,
                ) implies sp_contains_key(self.loaded@, k) by {
                assert(needed@.contains(k));
                let a = choose|a: int| 0 <= a < needed@.len() && needed@[a] == k;
                assert(self.loaded@[a].key == k);
            }
        }
    }

    /// Deregisters an observer, then immediately prunes the active set
    /// to the remaining observers' windows; with no observers left the
    /// active set empties entirely.
    pub fn remove_viewer(&mut self, id: ViewerId)
        requires
            old(self).wf(),
        ensures
            final(self).wf(),
            final(self).params == old(self).params,
            final(self).bounds == old(self).bounds,
            final(self).chunk_radius == old(self).chunk_radius,
            final(self).bake_on_miss == old(self).bake_on_miss,
            final(self).world_span_x == old(self).world_span_x,
            final(self).world_span_z == old(self).world_span_z,
            final(self).store_prefix == old(self).store_prefix,
            (exists|j: int|
                0 <= j < old(self).viewers@.len() && (#[trigger] old(
                    self,
                ).viewers@[j]).id == id && final(self).viewers@ == old(
                    self,
                ).viewers@.remove(j)) || ((forall|j: int|
                0 <= j < old(self).viewers@.len() ==> (#[trigger] old(
                    self,
                ).viewers@[j]).id != id) && final(self).viewers@ == old(self).viewers@),
            forall|i: int|
                0 <= i < final(self).loaded@.len() ==> sp_key_needed(&final(self).params, final(self).bounds, 
                    final(self).viewers@,
                    final(self).chunk_radius as int,
                    (#[trigger] final(self).loaded@[i]).key,
                ),
            forall|i: int|
                0 <= i < final(self).loaded@.len() ==> sp_cell_from(
                    old(self).loaded@,
                    #[trigger] final(self).loaded@[i],
                ),
            forall|k: ChunkKey|
                sp_key_needed(&final(self).params, final(self).bounds, 
                    final(self).viewers@,
                    final(self).chunk_radius as int,
                    k,
                ) && sp_contains_key(old(self).loaded@, k) ==> sp_contains_key(
                    final(self).loaded@,
                    k,
                ),
            final(self).viewers@.len() == 0 ==> final(self).loaded@.len() == 0,
    {
        let found = find_viewer_index(&self.viewers, id);
        match found {
            Some(idx) => {
                self.viewers.remove(idx);
                proof {
                    assert forall|a: int, b: int|
                        0 <= a < b < self.viewers@.len() implies (
                    #[trigger] self.viewers@[a]).id != (#[trigger] self.viewers@[b]).id by {
                        if b < idx {
                        } else if a < idx {
                            assert(self.viewers@[b] == old(self).viewers@[b + 1]);
                        } else {
                            assert(self.viewers@[a] == old(self).viewers@[a + 1]);
                            assert(self.viewers@[b] == old(self).viewers@[b + 1]);
                        }
                    }
                    assert forall|a: int|
                        0 <= a < self.viewers@.len() implies sp_viewer_wf(
                        #[trigger] self.viewers@[a],
                    ) by {
                        if a < idx {
                            assert(self.viewers@[a] == old(self).viewers@[a]);
                        } else {
                            assert(self.viewers@[a] == old(self).viewers@[a + 1]);
                        }
                    }
                }
            },
            None => {},
        }
        let radius = self.chunk_radius;
        let needed = self.window_keys(radius);
        let ghost vs1 = self.viewers@;
        let mut pool: Vec<LoadedCell> = Vec::new();
        core::mem::swap(&mut pool, &mut self.loaded);
        proof {
            assert forall|ci: int| 0 <= ci < pool@.len() implies sp_cell_from(
                old(self).loaded@,
                #[trigger] pool@[ci],
            ) by {
                assert(old(self).loaded@[ci] == pool@[ci]);
            }
        }
        let mut new_loaded: Vec<LoadedCell> = Vec::new();
        let mut i: usize = 0;
        while i < needed.len()
            invariant
                old(self).wf(),
                self.params == old(self).params,
                self.bounds == old(self).bounds,
                self.chunk_radius == old(self).chunk_radius,
                self.bake_on_miss == old(self).bake_on_miss,
                self.world_span_x == old(self).world_span_x,
                self.world_span_z == old(self).world_span_z,
                self.store_prefix == old(self).store_prefix,
                self.viewers@ == vs1,
                forall|a: int|
                    0 <= a < vs1.len() ==> sp_viewer_wf(#[trigger] vs1[a]),
                forall|a: int, b: int|
                    0 <= a < b < vs1.len() ==> (#[trigger] vs1[a]).id != (
                    #[trigger] vs1[b]).id,
                radius == old(self).chunk_radius,
                i <= needed@.len(),
                forall|a: int, b: int|
                    0 <= a < b < needed@.len() ==> needed@[a] != needed@[b],
                forall|a: int|
                    0 <= a < needed@.len() ==> sp_key_needed(&self.params, self.bounds, 
                        vs1,
                        radius as int,
                        #[trigger] needed@[a],
                    ),
                forall|k: ChunkKey|
                    sp_key_needed(&self.params, self.bounds, vs1, radius as int, k) ==> needed@.contains(k),
                new_loaded@.len() <= i,
                forall|j: int|
                    0 <= j < new_loaded@.len() ==> sp_key_needed(&self.params, self.bounds, 
                        vs1,
                        radius as int,
                        (#[trigger] new_loaded@[j]).key,
                    ),
                forall|a: int, b: int|
                    0 <= a < b < new_loaded@.len() ==> (#[trigger] new_loaded@[a]).key
                        != (#[trigger] new_loaded@[b]).key,
                forall|j: int|
                    0 <= j < new_loaded@.len() ==> sp_cell_from(
                        old(self).loaded@,
                        #[trigger] new_loaded@[j],
                    ),
                forall|j: int|
                    0 <= j < new_loaded@.len() ==> needed@.take(i as int).contains(
                        (#[trigger] new_loaded@[j]).key,
                    ),
                forall|ci: int|
                    0 <= ci < pool@.len() ==> sp_cell_from(
                        old(self).loaded@,
                        #[trigger] pool@[ci],
                    ),
                forall|k: ChunkKey|
                    sp_contains_key(old(self).loaded@, k) && !needed@.take(
                        i as int,
                    ).contains(k) ==> sp_contains_key(pool@, k),
                forall|k: ChunkKey|
                    sp_contains_key(old(self).loaded@, k) && needed@.take(
                        i as int,
                    ).contains(k) ==> sp_contains_key(new_loaded@, k),
            decreases needed@.len() - i,
        {
            let k = needed[i];
            let ghost pool0 = pool@;
            let ghost new0 = new_loaded@;
            proof {
                assert(!needed@.take(i as int).contains(needed@[i as int])) by {
                    if needed@.take(i as int).contains(needed@[i as int]) {
                        let a = choose|a: int|
                            0 <= a < i && needed@.take(i as int)[a] == needed@[i as int];
                    }
                }
            }
            match find_in_pool(&pool, k) {
                Some(idx) => {
                    let cell = pool.swap_remove(idx);
                    new_loaded.push(cell);
                    proof {
                        assert(new_loaded@[new_loaded@.len() - 1].key == k);
                        assert forall|ci: int| 0 <= ci < pool@.len() implies sp_cell_from(
                            old(self).loaded@,
                            #[trigger] pool@[ci],
                        ) by {
                            if ci == idx {
                                assert(pool@[ci] == pool0[pool0.len() - 1]);
                            } else {
                                assert(pool@[ci] == pool0[ci]);
                            }
                        }
                    }
                },
                None => {},
            }
            proof {
                assert forall|k2: ChunkKey|
                    sp_contains_key(old(self).loaded@, k2) && !needed@.take(
                        i + 1,
                    ).contains(k2) implies sp_contains_key(pool@, k2) by {
                    assert(!needed@.take(i as int).contains(k2)) by {
                        if needed@.take(i as int).contains(k2) {
                            let a = choose|a: int|
                                0 <= a < i && needed@.take(i as int)[a] == k2;
                            assert(needed@.take(i + 1)[a] == k2);
                        }
                    }
                    assert(k2 != needed@[i as int]) by {
                        assert(needed@.take(i + 1)[i as int] == needed@[i as int]);
                    }
                    assert(sp_contains_key(pool0, k2));
                    let io = choose|io: int|
                        0 <= io < pool0.len() && (#[trigger] pool0[io]).key == k2;
                    if pool@.len() < pool0.len() {
                        let idx = choose|idx: int|
                            0 <= idx < pool0.len() && pool0[idx].key == needed@[i as int]
                                && pool@ == pool0.update(
                                idx,
                                pool0[pool0.len() - 1],
                            ).drop_last();
                        if io == idx {
                            assert(pool0[io].key == k2);
                            assert(false);
                        } else if io == pool0.len() - 1 {
                            if idx < pool0.len() - 1 {
                                assert(pool@[idx].key == k2);
                            } else {
                                assert(false);
                            }
                        } else {
                            assert(pool@[io].key == k2);
                        }
                    }
                }
                assert forall|j: int|
                    0 <= j < new_loaded@.len() implies needed@.take(i + 1).contains(
                    (#[trigger] new_loaded@[j]).key,
                ) by {
                    if j < new0.len() {
                        assert(new_loaded@[j] == new0[j]);
                        assert(needed@.take(i as int).contains(new0[j].key));
                        let ghost t0 = needed@.take(i as int);
                        let a = choose|a: int|
                            0 <= a < t0.len() && #[trigger] t0[a] == new0[j].key;
                        assert(needed@.take(i + 1)[a] == new0[j].key);
                    } else {
                        assert(new_loaded@[j].key == needed@[i as int]);
                        assert(needed@.take(i + 1)[i as int] == needed@[i as int]);
                    }
                }
                assert forall|k2: ChunkKey|
                    sp_contains_key(old(self).loaded@, k2) && needed@.take(
                        i + 1,
                    ).contains(k2) implies sp_contains_key(new_loaded@, k2) by {
                    if needed@.take(i as int).contains(k2) {
                        assert(sp_contains_key(new0, k2));
                        let a = choose|a: int|
                            0 <= a < new0.len() && (#[trigger] new0[a]).key == k2;
                        assert(new_loaded@[a].key == k2);
                    } else {
                        let ghost tk = needed@.take(i + 1);
                        let a = choose|a: int| 0 <= a < tk.len() && #[trigger] tk[a] == k2;
                        assert(a == i);
                        assert(k2 == needed@[i as int]);
                        assert(sp_contains_key(pool0, k2));
                        assert(new_loaded@[new_loaded@.len() - 1].key == k2);
                    }
                }
            }
            i += 1;
        }
        self.loaded = new_loaded;
        proof {
            assert forall|k: ChunkKey|
                sp_key_needed(&self.params, self.bounds, self.viewers@, self.chunk_radius as int, k)
                    && sp_contains_key(old(self).loaded@, k) implies sp_contains_key(
                self.loaded@,
                k,
            ) by {
                assert(needed@.contains(k));
                assert(needed@.take(needed@.len() as int) =~= needed@);
            }
            if self.viewers@.len() == 0 {
                if self.loaded@.len() > 0 {
                    assert(sp_key_needed(&self.params, self.bounds, 
                        self.viewers@,
                        self.chunk_radius as int,
                        self.loaded@[0].key,
                    ));
                }
            }
        }
    }
}

impl ChunkManager {
    /// The cell a world position falls in (before wrapping).
    pub fn world_to_chunk(&self, x: i64, z: i64) -> (r: (i64, i64))
        requires
            self.wf(),
            -VIEWER_POS_MAX <= x <= VIEWER_POS_MAX,
            -VIEWER_POS_MAX <= z <= VIEWER_POS_MAX,
        ensures
            r.0 == sp_cell_x(&self.params, x),
            r.1 == sp_cell_z(&self.params, z),
    {
        let (cw, cd) = chunk_world_span(&self.params);
        (floor_div(x, cw), floor_div(z, cd))
    }
}

/// Eviction bound: with exactly one registered observer, the streamed
/// active set holds at most `(2R + 1)²` cells.
pub proof fn lemma_eviction_bound(n_loaded: int, n_viewers: int, radius: int)
    requires
        n_viewers == 1,
        n_loaded <= n_viewers * ((2 * radius + 1) * (2 * radius + 1)),
    ensures
        n_loaded <= (2 * radius + 1) * (2 * radius + 1),
{
}

/// What churn may do to a placement over any number of steps: leave it
/// alone, or re-roll its archetype within the same category's registered
/// list, jitter its scale within fixed clamps, and re-ground it
/// (vertical center = half-height × vertical scale); the footprint
/// position never moves.
pub open spec fn sp_churned(
    assets: &AssetLibrary,
    o: RuntimePlacement,
    n: RuntimePlacement,
) -> bool {
    ||| n == o
    ||| {
        &&& n.center.x == o.center.x
        &&& n.center.z == o.center.z
        &&& (o.archetype_id as int) < assets.archetypes@.len()
        &&& (n.archetype_id as int) < assets.archetypes@.len()
        &&& assets.archetypes@[n.archetype_id as int].category
            == assets.archetypes@[o.archetype_id as int].category
        &&& assets.sp_indices(assets.archetypes@[o.archetype_id as int].category).contains(
            n.archetype_id as usize,
        )
        &&& 700 <= n.scale.x <= 1800
        &&& 700 <= n.scale.y <= 2500
        &&& 700 <= n.scale.z <= 1800
        &&& n.center.y == assets.archetypes@[n.archetype_id as int].base_half.y
            * n.scale.y / 1000
    }
}

/// Churn steps compose: a placement churned twice is still a churned
/// form of the original.
proof fn lemma_churned_step(
    assets: &AssetLibrary,
    o: RuntimePlacement,
    m: RuntimePlacement,
    n: RuntimePlacement,
)
    requires
        sp_churned(assets, o, m),
        sp_churned(assets, m, n),
    ensures
        sp_churned(assets, o, n),
{
}

/// The placement index one churn step rewrites in a cell: a hash of the
/// cell key and the list length, whitened with the external seed.
pub open spec fn sp_churn_index(k: ChunkKey, len: int, seed_add: u64) -> int {
    let h = sp_hash2(k.0 ^ k.1, ((len as u64) % 0x7FFF_FFFF) as i32);
    ((h ^ seed_add) % (len as u64)) as int
}

/// The per-call scale jitter factor, in thousandths.
pub open spec fn sp_churn_factor(seed_add: u64) -> int {
    950 + ((vstd::wrapping::u64_specs::wrapping_mul(seed_add, 0x9E37_79B9_7F4A_7C15u64)
        >> 48) % 121) as int
}

/// One scale component after the jitter: the previous value (clamped
/// into the representable range) times the factor, clamped to `700..hi`.
pub open spec fn sp_churn_scaled(v: i64, f: int, hi: int) -> int {
    crate::geom::sp_clamp(
        crate::geom::sp_clamp(v as int, 0, 10_000_000) * f / 1000,
        700,
        hi,
    )
}

/// One churn step on a cell's placement list: the placement at the
/// hashed index is re-rolled within its category (if it names a
/// registered archetype of a non-empty category; otherwise the step
/// changes nothing), its scale is jittered and it is re-grounded.
pub open spec fn sp_churn_step(
    assets: &AssetLibrary,
    k: ChunkKey,
    list: Seq<RuntimePlacement>,
    seed_add: u64,
) -> Seq<RuntimePlacement>
    recommends
        list.len() > 0,
{
    let idx = sp_churn_index(k, list.len() as int, seed_add);
    let o = list[idx];
    if (o.archetype_id as int) >= assets.archetypes@.len() {
        list
    } else {
        let cat = assets.archetypes@[o.archetype_id as int].category;
        let ids = assets.sp_indices(cat);
        if ids.len() == 0 {
            list
        } else {
            let ki = ((seed_add ^ (idx as u64)) % (ids.len() as u64)) as int;
            let pick = if ids.len() > 1 && (ids[ki] as int) == (o.archetype_id as int) {
                (ki + 1) % (ids.len() as int)
            } else {
                ki
            };
            let new_id = ids[pick];
            let f = sp_churn_factor(seed_add);
            let sx = sp_churn_scaled(o.scale.x, f, 1800);
            let sy = sp_churn_scaled(o.scale.y, f, 2500);
            let sz = sp_churn_scaled(o.scale.z, f, 1800);
            let cy = assets.archetypes@[new_id as int].base_half.y * sy / 1000;
            list.update(
                idx,
                RuntimePlacement {
                    center: Vec3i { x: o.center.x, y: cy as i64, z: o.center.z },
                    scale: Vec3i { x: sx as i64, y: sy as i64, z: sz as i64 },
                    archetype_id: new_id as u16,
                },
            )
        }
    }
}

/// Churn steps while a whole mutation (1 000 000 budget micro-units) is
/// owed; returns the final list and the remaining budget.
pub open spec fn sp_churn_steps(
    assets: &AssetLibrary,
    k: ChunkKey,
    list: Seq<RuntimePlacement>,
    seed_add: u64,
    budget: int,
) -> (Seq<RuntimePlacement>, int)
    decreases budget,
{
    if budget < 1_000_000 || list.len() == 0 {
        (list, budget)
    } else {
        sp_churn_steps(
            assets,
            k,
            sp_churn_step(assets, k, list, seed_add),
            seed_add,
            budget - 1_000_000,
        )
    }
}

/// One cell's churn: the budget grows by `count × rate × dt`
/// micro-units (saturating at the cap), then whole mutations run.
pub open spec fn sp_churn_cell(
    assets: &AssetLibrary,
    k: ChunkKey,
    list: Seq<RuntimePlacement>,
    seed_add: u64,
    budget: int,
    rate: int,
    dt: int,
) -> (Seq<RuntimePlacement>, int) {
    if list.len() == 0 {
        (list, budget)
    } else {
        let b1 = budget + list.len() * rate * dt;
        let b2 = if b1 > 1_000_000_000_000 {
            1_000_000_000_000
        } else {
            b1
        };
        sp_churn_steps(assets, k, list, seed_add, b2)
    }
}

/// The index of the (unique) cell with this key.
pub open spec fn sp_key_index(ckeys: Seq<ChunkKey>, k: ChunkKey) -> int {
    choose|i: int| 0 <= i < ckeys.len() && #[trigger] ckeys[i] == k
}

/// The whole churn pass over the active set: the window keys are walked
/// in order, each resident cell is churned once, and the fractional
/// budget carries from cell to cell.  `views` are the cells' placement
/// lists, positionally matching `ckeys`.
pub open spec fn sp_churn_fold(
    assets: &AssetLibrary,
    wkeys: Seq<ChunkKey>,
    ckeys: Seq<ChunkKey>,
    views: Seq<Seq<RuntimePlacement>>,
    seed_add: u64,
    rate: int,
    dt: int,
    n: nat,
) -> (Seq<Seq<RuntimePlacement>>, int)
    decreases n,
{
    if n == 0 {
        (views, 0)
    } else {
        let prev = sp_churn_fold(assets, wkeys, ckeys, views, seed_add, rate, dt, (n - 1) as nat);
        let k = wkeys[n - 1];
        if !ckeys.contains(k) {
            prev
        } else {
            let ci = sp_key_index(ckeys, k);
            let stepped = sp_churn_cell(assets, k, prev.0[ci], seed_add, prev.1, rate, dt);
            (prev.0.update(ci, stepped.0), stepped.1)
        }
    }
}

/// The churn re-roll rule, per step (spec item: re-roll to a different
/// archetype within the same category): when the rewritten placement
/// names a registered archetype of a non-empty category, the new
/// archetype is drawn from that category's index list and differs from
/// the old one whenever the list registers more than one.
pub proof fn lemma_churn_step_rerolls(
    assets: &AssetLibrary,
    k: ChunkKey,
    list: Seq<RuntimePlacement>,
    seed_add: u64,
)
    requires
        assets.wf(),
        0 < list.len() <= 0xFFFF_FFFF_FFFF_FFFF,
        (list[sp_churn_index(k, list.len() as int, seed_add)].archetype_id as int)
            < assets.archetypes@.len(),
        assets.sp_indices(
            assets.archetypes@[list[sp_churn_index(
                k,
                list.len() as int,
                seed_add,
            )].archetype_id as int].category,
        ).len() > 0,
    ensures
        ({
            let idx = sp_churn_index(k, list.len() as int, seed_add);
            let o = list[idx];
            let ids = assets.sp_indices(
                assets.archetypes@[o.archetype_id as int].category,
            );
            let n = sp_churn_step(assets, k, list, seed_add)[idx];
            &&& ids.contains(n.archetype_id as usize)
            &&& ids.len() > 1 ==> n.archetype_id != o.archetype_id
        }),
{
    let idx = sp_churn_index(k, list.len() as int, seed_add);
    assert(0 <= idx < list.len());
    let o = list[idx];
    let cat = assets.archetypes@[o.archetype_id as int].category;
    let ids = assets.sp_indices(cat);
    let len = ids.len() as int;
    assert(1 <= len <= 0x1_0000);
    let ki = ((seed_add ^ (idx as u64)) % (ids.len() as u64)) as int;
    assert(0 <= ki < len);
    let pick = if ids.len() > 1 && (ids[ki] as int) == (o.archetype_id as int) {
        (ki + 1) % len
    } else {
        ki
    };
    if ids.len() > 1 && (ids[ki] as int) == (o.archetype_id as int) {
        if ki + 1 < len {
            vstd::arithmetic::div_mod::lemma_fundamental_div_mod_converse(
                ki + 1,
                len,
                0,
                ki + 1,
            );
        } else {
            vstd::arithmetic::div_mod::lemma_fundamental_div_mod_converse(len, len, 1, 0);
        }
        assert(pick != ki);
        assert(ids[pick] != ids[ki]);
    }
    assert(0 <= pick < len);
    let new_id = ids[pick];
    assert(new_id < assets.archetypes@.len());
    assert(new_id <= 0xFFFF);
    let f = sp_churn_factor(seed_add);
    let sx = sp_churn_scaled(o.scale.x, f, 1800);
    let sy = sp_churn_scaled(o.scale.y, f, 2500);
    let sz = sp_churn_scaled(o.scale.z, f, 1800);
    let cy = assets.archetypes@[new_id as int].base_half.y * sy / 1000;
    let nn = RuntimePlacement {
        center: Vec3i { x: o.center.x, y: cy as i64, z: o.center.z },
        scale: Vec3i { x: sx as i64, y: sy as i64, z: sz as i64 },
        archetype_id: new_id as u16,
    };
    assert(sp_churn_step(assets, k, list, seed_add) == list.update(idx, nn));
    let n = sp_churn_step(assets, k, list, seed_add)[idx];
    assert(n == nn);
    assert(n.archetype_id as usize == new_id);
    assert(ids[pick] == new_id);
    assert(ids.contains(n.archetype_id as usize));
    if ids.len() > 1 {
        assert((ids[pick] as int) != (o.archetype_id as int));
        assert(n.archetype_id != o.archetype_id);
    }
}

/// Churns one cell's placements in place, threading the shared budget;
/// the result is exactly the `sp_churn_cell` fold.
fn churn_cell(
    assets: &AssetLibrary,
    k: ChunkKey,
    list: &mut Vec<RuntimePlacement>,
    seed_add: u64,
    budget: &mut u64,
    rate: u32,
    dt: u32,
)
    requires
        assets.wf(),
        *old(budget) <= 1_000_000_000_000,
    ensures
        *final(budget) <= 1_000_000_000_000,
        final(list)@.len() == old(list)@.len(),
        ({
            let r = sp_churn_cell(
                assets,
                k,
                old(list)@,
                seed_add,
                *old(budget) as int,
                rate as int,
                dt as int,
            );
            final(list)@ == r.0 && *final(budget) as int == r.1
        }),
        forall|j: int|
            0 <= j < old(list)@.len() ==> sp_churned(
                assets,
                old(list)@[j],
                #[trigger] final(list)@[j],
            ),
{
    let len = list.len();
    if len == 0 {
        return ;
    }
    proof {
        assert(0 <= (len as int) * (rate as int) && (len as int) * (rate as int)
            <= 0xFFFF_FFFF_FFFF_FFFF * 0xFFFF_FFFF) by (nonlinear_arith)
            requires
                0 <= (len as int) && (len as int) <= 0xFFFF_FFFF_FFFF_FFFF,
                0 <= (rate as int) && (rate as int) <= 0xFFFF_FFFF,
        ;
        assert(0 <= (len as int) * (rate as int) * (dt as int) && (len as int) * (
        rate as int) * (dt as int) <= 0xFFFF_FFFF_FFFF_FFFF * 0xFFFF_FFFF * 0xFFFF_FFFF)
            by (nonlinear_arith)
            requires
                0 <= (len as int) * (rate as int) && (len as int) * (rate as int)
                    <= 0xFFFF_FFFF_FFFF_FFFF * 0xFFFF_FFFF,
                0 <= (dt as int) && (dt as int) <= 0xFFFF_FFFF,
        ;
    }
    let add: u128 = (len as u128) * (rate as u128) * (dt as u128);
    let b: u128 = (*budget as u128) + add;
    *budget = if b > 1_000_000_000_000u128 {
        1_000_000_000_000u64
    } else {
        b as u64
    };
    let ghost target = sp_churn_steps(assets, k, list@, seed_add, *budget as int);
    proof {
        assert(sp_churn_cell(
            assets,
            k,
            old(list)@,
            seed_add,
            *old(budget) as int,
            rate as int,
            dt as int,
        ) == target);
    }
    while *budget >= 1_000_000
        invariant
            assets.wf(),
            *budget <= 1_000_000_000_000,
            len == list@.len(),
            len == old(list)@.len(),
            len > 0,
            sp_churn_steps(assets, k, list@, seed_add, *budget as int) == target,
            forall|j: int|
                0 <= j < old(list)@.len() ==> sp_churned(
                    assets,
                    old(list)@[j],
                    #[trigger] list@[j],
                ),
        decreases *budget,
    {
        let ghost list0 = list@;
        let ghost budget0 = *budget;
        *budget = *budget - 1_000_000;
        let h = crate::rng::hash2(k.0 ^ k.1, ((len as u64) % 0x7FFF_FFFF) as i32);
        let idx = ((h ^ seed_add) % (len as u64)) as usize;
        proof {
            assert((h ^ seed_add) % (len as u64) < len as u64) by (nonlinear_arith)
                requires
                    len as u64 > 0,
            ;
            assert(idx as int == sp_churn_index(k, len as int, seed_add));
        }
        let o = list[idx];
        if (o.archetype_id as usize) < assets.len() {
            let cat = assets.category_of(o.archetype_id as usize);
            let ids = assets.indices_by_category(cat);
            if ids.len() > 0 {
                let ki = ((seed_add ^ (idx as u64)) % (ids.len() as u64)) as usize;
                let mut pick = ki;
                if ids.len() > 1 && ids[ki] == o.archetype_id as usize {
                    pick = (ki + 1) % ids.len();
                }
                let new_id = ids[pick];
                proof {
                    assert(assets.sp_indices(cat)[pick as int] == new_id);
                }
                let j64: u64 = (seed_add.wrapping_mul(0x9E37_79B9_7F4A_7C15u64) >> 48)
                    % 121;
                let f: i64 = 950 + j64 as i64;
                proof {
                    assert(f as int == sp_churn_factor(seed_add));
                }
                let sx0 = crate::geom::clamp_i64(o.scale.x, 0, 10_000_000);
                let sy0 = crate::geom::clamp_i64(o.scale.y, 0, 10_000_000);
                let sz0 = crate::geom::clamp_i64(o.scale.z, 0, 10_000_000);
                proof {
                    assert(0 <= sx0 * f <= 10_000_000 * 1071 && 0 <= sy0 * f
                        <= 10_000_000 * 1071 && 0 <= sz0 * f <= 10_000_000 * 1071)
                        by (nonlinear_arith)
                        requires
                            0 <= sx0 <= 10_000_000,
                            0 <= sy0 <= 10_000_000,
                            0 <= sz0 <= 10_000_000,
                            950 <= f <= 1071,
                    ;
                }
                let sx = crate::geom::clamp_i64(
                    ((sx0 as u64 * f as u64) / 1000) as i64,
                    700,
                    1800,
                );
                let sy = crate::geom::clamp_i64(
                    ((sy0 as u64 * f as u64) / 1000) as i64,
                    700,
                    2500,
                );
                let sz = crate::geom::clamp_i64(
                    ((sz0 as u64 * f as u64) / 1000) as i64,
                    700,
                    1800,
                );
                let base = assets.base_half(new_id);
                proof {
                    assert(1 <= base.y <= crate::assets::BASE_HALF_MAX);
                    assert(0 <= base.y * sy <= 100_000 * 2500) by (nonlinear_arith)
                        requires
                            1 <= base.y <= 100_000,
                            700 <= sy <= 2500,
                    ;
                }
                let cy = ((base.y as u64 * sy as u64) / 1000) as i64;
                let nn = RuntimePlacement {
                    center: Vec3i { x: o.center.x, y: cy, z: o.center.z },
                    scale: Vec3i { x: sx, y: sy, z: sz },
                    archetype_id: new_id as u16,
                };
                list[idx] = nn;
                proof {
                    assert(nn.archetype_id as usize == new_id);
                    assert(sp_churned(assets, o, nn));
                    assert(list@ =~= sp_churn_step(assets, k, list0, seed_add));
                    assert forall|j: int| 0 <= j < old(list)@.len() implies sp_churned(
                        assets,
                        old(list)@[j],
                        #[trigger] list@[j],
                    ) by {
                        if j == idx {
                            lemma_churned_step(assets, old(list)@[j], o, nn);
                        } else {
                            assert(list@[j] == list0[j]);
                        }
                    }
                }
            } else {
                proof {
                    assert(list@ =~= sp_churn_step(assets, k, list0, seed_add));
                }
            }
        } else {
            proof {
                assert(list@ =~= sp_churn_step(assets, k, list0, seed_add));
            }
        }
        proof {
            assert(sp_churn_steps(assets, k, list@, seed_add, *budget as int) == target);
        }
    }
    proof {
        assert(sp_churn_steps(assets, k, list@, seed_add, *budget as int) == (
            list@,
            *budget as int,
        ));
    }
}

impl ChunkManager {
    /// Background "city churn": walks the union of the observers'
    /// windows (radius `radius_chunks` cells), accumulating a fractional
    /// mutation budget of `count × rate × dt` per resident cell, and
    /// while a whole mutation is owed, re-rolls one deterministically
    /// chosen placement's archetype within its category, jitters its
    /// scale within fixed clamps and re-grounds it.  The resulting
    /// state is exactly the `sp_churn_fold` of the previous one.
    /// `rate_milli_per_sec` is in thousandths of the per-placement rate
    /// per second; `dt_millis` in milliseconds.  A zero rate or a
    /// negative radius changes nothing.
    pub fn mutate_near(
        &mut self,
        assets: &AssetLibrary,
        rate_milli_per_sec: u32,
        dt_millis: u32,
        radius_chunks: i32,
        seed_add: u64,
    )
        requires
            old(self).wf(),
            assets.wf(),
        ensures
            final(self).wf(),
            final(self).params == old(self).params,
            final(self).bounds == old(self).bounds,
            final(self).chunk_radius == old(self).chunk_radius,
            final(self).bake_on_miss == old(self).bake_on_miss,
            final(self).world_span_x == old(self).world_span_x,
            final(self).world_span_z == old(self).world_span_z,
            final(self).store_prefix == old(self).store_prefix,
            final(self).viewers == old(self).viewers,
            final(self).loaded@.len() == old(self).loaded@.len(),
            forall|i: int|
                0 <= i < old(self).loaded@.len() ==> (#[trigger] final(self).loaded@[i]).key
                    == old(self).loaded@[i].key && final(self).loaded@[i].placements@.len()
                    == old(self).loaded@[i].placements@.len(),
            forall|i: int, j: int|
                0 <= i < old(self).loaded@.len() && 0 <= j
                    < old(self).loaded@[i].placements@.len() ==> sp_churned(
                    assets,
                    old(self).loaded@[i].placements@[j],
                    #[trigger] final(self).loaded@[i].placements@[j],
                ),
            forall|i: int, j: int|
                0 <= i < old(self).loaded@.len() && 0 <= j
                    < old(self).loaded@[i].placements@.len() && !sp_key_needed(
                    &old(self).params,
                    old(self).bounds,
                    old(self).viewers@,
                    radius_chunks as int,
                    old(self).loaded@[i].key,
                ) ==> (#[trigger] final(self).loaded@[i].placements@[j]) == old(
                    self,
                ).loaded@[i].placements@[j],
            rate_milli_per_sec == 0 || radius_chunks < 0 ==> *final(self) == *old(self),
            rate_milli_per_sec > 0 && radius_chunks >= 0 ==> ({
                let wkeys = sp_window_list(
                    &old(self).params,
                    old(self).bounds,
                    old(self).viewers@,
                    radius_chunks as int,
                );
                let ckeys = Seq::new(
                    old(self).loaded@.len(),
                    |i: int| old(self).loaded@[i].key,
                );
                let views = Seq::new(
                    old(self).loaded@.len(),
                    |i: int| old(self).loaded@[i].placements@,
                );
                forall|i: int|
                    0 <= i < old(self).loaded@.len() ==> (#[trigger] final(self).loaded@[i]).placements@
                        == sp_churn_fold(
                        assets,
                        wkeys,
                        ckeys,
                        views,
                        seed_add,
                        rate_milli_per_sec as int,
                        dt_millis as int,
                        wkeys.len(),
                    ).0[i]
            }),
    {
        if rate_milli_per_sec == 0 {
            return ;
        }
        if radius_chunks < 0 {
            return ;
        }
        let needed = self.window_keys(radius_chunks);
        let ghost wkeys = needed@;
        let ghost ckeys = Seq::new(
            old(self).loaded@.len(),
            |i: int| old(self).loaded@[i].key,
        );
        let ghost views0 = Seq::new(
            old(self).loaded@.len(),
            |i: int| old(self).loaded@[i].placements@,
        );
        let mut budget: u64 = 0;
        let mut wi: usize = 0;
        while wi < needed.len()
            invariant
                old(self).wf(),
                assets.wf(),
                self.params == old(self).params,
                self.bounds == old(self).bounds,
                self.chunk_radius == old(self).chunk_radius,
                self.bake_on_miss == old(self).bake_on_miss,
                self.world_span_x == old(self).world_span_x,
                self.world_span_z == old(self).world_span_z,
                self.store_prefix == old(self).store_prefix,
                self.viewers == old(self).viewers,
                wi <= needed@.len(),
                budget <= 1_000_000_000_000,
                needed@ == wkeys,
                wkeys == sp_window_list(
                    &old(self).params,
                    old(self).bounds,
                    old(self).viewers@,
                    radius_chunks as int,
                ),
                ckeys == Seq::new(
                    old(self).loaded@.len(),
                    |i: int| old(self).loaded@[i].key,
                ),
                views0 == Seq::new(
                    old(self).loaded@.len(),
                    |i: int| old(self).loaded@[i].placements@,
                ),
                forall|a: int|
                    0 <= a < needed@.len() ==> sp_key_needed(
                        &old(self).params,
                        old(self).bounds,
                        old(self).viewers@,
                        radius_chunks as int,
                        #[trigger] needed@[a],
                    ),
                self.loaded@.len() == old(self).loaded@.len(),
                forall|i: int|
                    0 <= i < old(self).loaded@.len() ==> (#[trigger] self.loaded@[i]).key
                        == old(self).loaded@[i].key && self.loaded@[i].placements@.len()
                        == old(self).loaded@[i].placements@.len(),
                forall|i: int, j: int|
                    0 <= i < old(self).loaded@.len() && 0 <= j < old(
                        self,
                    ).loaded@[i].placements@.len() ==> sp_churned(
                        assets,
                        old(self).loaded@[i].placements@[j],
                        #[trigger] self.loaded@[i].placements@[j],
                    ),
                forall|i: int, j: int|
                    0 <= i < old(self).loaded@.len() && 0 <= j < old(
                        self,
                    ).loaded@[i].placements@.len() && !sp_key_needed(
                        &old(self).params,
                        old(self).bounds,
                        old(self).viewers@,
                        radius_chunks as int,
                        old(self).loaded@[i].key,
                    ) ==> (#[trigger] self.loaded@[i].placements@[j]) == old(
                        self,
                    ).loaded@[i].placements@[j],
                budget as int == sp_churn_fold(
                    assets,
                    wkeys,
                    ckeys,
                    views0,
                    seed_add,
                    rate_milli_per_sec as int,
                    dt_millis as int,
                    wi as nat,
                ).1,
                sp_churn_fold(
                    assets,
                    wkeys,
                    ckeys,
                    views0,
                    seed_add,
                    rate_milli_per_sec as int,
                    dt_millis as int,
                    wi as nat,
                ).0.len() == old(self).loaded@.len(),
                forall|i: int|
                    0 <= i < old(self).loaded@.len() ==> (#[trigger] self.loaded@[i]).placements@
                        == sp_churn_fold(
                        assets,
                        wkeys,
                        ckeys,
                        views0,
                        seed_add,
                        rate_milli_per_sec as int,
                        dt_millis as int,
                        wi as nat,
                    ).0[i],
            decreases needed@.len() - wi,
        {
            let k = needed[wi];
            let ghost fold_prev = sp_churn_fold(
                assets,
                wkeys,
                ckeys,
                views0,
                seed_add,
                rate_milli_per_sec as int,
                dt_millis as int,
                wi as nat,
            );
            match self.find_cell_index(k) {
                Some(ci) => {
                    proof {
                        assert(ckeys[ci as int] == k);
                        assert(ckeys.contains(k));
                        let cj = sp_key_index(ckeys, k);
                        assert(0 <= cj < ckeys.len() && ckeys[cj] == k);
                        if cj != ci as int {
                            assert(old(self).loaded@[cj].key == k);
                            assert(old(self).loaded@[ci as int].key == k);
                            assert(false);
                        }
                    }
                    let ghost pre = self.loaded@;
                    let mut cell = self.loaded.remove(ci);
                    let ghost entry_list = cell.placements@;
                    let ghost entry_budget = budget;
                    churn_cell(
                        assets,
                        k,
                        &mut cell.placements,
                        seed_add,
                        &mut budget,
                        rate_milli_per_sec,
                        dt_millis,
                    );
                    let ghost cellg = cell;
                    self.loaded.insert(ci, cell);
                    proof {
                        assert(self.loaded@ =~= pre.update(ci as int, cellg));
                        let stepped = sp_churn_cell(
                            assets,
                            k,
                            entry_list,
                            seed_add,
                            entry_budget as int,
                            rate_milli_per_sec as int,
                            dt_millis as int,
                        );
                        assert(entry_list == fold_prev.0[ci as int]);
                        assert(cellg.placements@ == stepped.0);
                        assert(budget as int == stepped.1);
                        let fold_next = sp_churn_fold(
                            assets,
                            wkeys,
                            ckeys,
                            views0,
                            seed_add,
                            rate_milli_per_sec as int,
                            dt_millis as int,
                            (wi + 1) as nat,
                        );
                        assert(fold_next.0 == fold_prev.0.update(ci as int, stepped.0));
                        assert(fold_next.1 == stepped.1);
                        assert forall|i: int|
                            0 <= i < old(self).loaded@.len() implies (
                        #[trigger] self.loaded@[i]).placements@ == fold_next.0[i] by {
                            if i == ci as int {
                            } else {
                                assert(self.loaded@[i] == pre[i]);
                            }
                        }
                        assert forall|i: int, j: int|
                            0 <= i < old(self).loaded@.len() && 0 <= j < old(
                                self,
                            ).loaded@[i].placements@.len() implies sp_churned(
                            assets,
                            old(self).loaded@[i].placements@[j],
                            #[trigger] self.loaded@[i].placements@[j],
                        ) by {
                            if i == ci as int {
                                assert(entry_list[j] == pre[i].placements@[j]);
                                assert(sp_churned(
                                    assets,
                                    old(self).loaded@[i].placements@[j],
                                    entry_list[j],
                                ));
                                assert(sp_churned(assets, entry_list[j], cellg.placements@[j]));
                                lemma_churned_step(
                                    assets,
                                    old(self).loaded@[i].placements@[j],
                                    entry_list[j],
                                    cellg.placements@[j],
                                );
                            } else {
                                assert(self.loaded@[i] == pre[i]);
                            }
                        }
                        assert forall|i: int, j: int|
                            0 <= i < old(self).loaded@.len() && 0 <= j < old(
                                self,
                            ).loaded@[i].placements@.len() && !sp_key_needed(
                                &old(self).params,
                                old(self).bounds,
                                old(self).viewers@,
                                radius_chunks as int,
                                old(self).loaded@[i].key,
                            ) implies (#[trigger] self.loaded@[i].placements@[j]) == old(
                            self,
                        ).loaded@[i].placements@[j] by {
                            if i == ci as int {
                                assert(sp_key_needed(
                                    &old(self).params,
                                    old(self).bounds,
                                    old(self).viewers@,
                                    radius_chunks as int,
                                    needed@[wi as int],
                                ));
                                assert(false);
                            } else {
                                assert(self.loaded@[i] == pre[i]);
                            }
                        }
                    }
                },
                None => {
                    proof {
                        assert(!ckeys.contains(k)) by {
                            if ckeys.contains(k) {
                                let a = choose|a: int|
                                    0 <= a < ckeys.len() && #[trigger] ckeys[a] == k;
                                assert(self.loaded@[a].key == old(self).loaded@[a].key);
                                assert(sp_contains_key(self.loaded@, k));
                            }
                        }
                    }
                },
            }
            wi += 1;
        }
    }
}

/// Origin-shift invertibility: shifting by `off` and then by `-off`
/// restores every placement center and every observer position exactly
/// (fixed-point coordinates lose nothing).
pub proof fn lemma_origin_shift_invertible(
    m0: &ChunkManager,
    m1: &ChunkManager,
    m2: &ChunkManager,
    off: Vec3i,
    neg: Vec3i,
)
    requires
        m0.sp_shift_fits(off),
        neg.x == -off.x,
        neg.y == -off.y,
        neg.z == -off.z,
        ChunkManager::sp_shift_rel(m0, m1, off),
        ChunkManager::sp_shift_rel(m1, m2, neg),
    ensures
        m2.loaded@.len() == m0.loaded@.len(),
        forall|i: int|
            0 <= i < m0.loaded@.len() ==> (#[trigger] m2.loaded@[i]).key
                == m0.loaded@[i].key && m2.loaded@[i].placements@
                == m0.loaded@[i].placements@,
        m2.viewers@ == m0.viewers@,
{
    assert forall|i: int| 0 <= i < m0.loaded@.len() implies (#[trigger] m2.loaded@[i]).key
        == m0.loaded@[i].key && m2.loaded@[i].placements@
        == m0.loaded@[i].placements@ by {
        assert forall|j: int| 0 <= j < m0.loaded@[i].placements@.len() implies (
        #[trigger] m2.loaded@[i].placements@[j]) == m0.loaded@[i].placements@[j] by {
            let p0 = m0.loaded@[i].placements@[j];
            let p1 = m1.loaded@[i].placements@[j];
            assert(p1 == sp_shifted_pl(p0, off));
            assert(m2.loaded@[i].placements@[j] == sp_shifted_pl(p1, neg));
        }
        assert(m2.loaded@[i].placements@ =~= m0.loaded@[i].placements@);
    }
    assert forall|i: int| 0 <= i < m0.viewers@.len() implies (#[trigger] m2.viewers@[i])
        == m0.viewers@[i] by {
        assert(m1.viewers@[i] == (Viewer {
            id: m0.viewers@[i].id,
            x: (m0.viewers@[i].x - off.x) as i64,
            z: (m0.viewers@[i].z - off.z) as i64,
        }));
    }
    assert(m2.viewers@ =~= m0.viewers@);
}

} // verus!

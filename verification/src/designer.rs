//! Deterministic procedural designer: maps (parameters, seed, cell
//! coordinates) to an ordered list of placements.
//!
//! The whole generation is specified as a pure mathematical fold over the
//! cell's block and lot grids, threading the pseudo-random stream state;
//! the executable generator is proved equal to that fold, which makes
//! reproducibility a theorem rather than a convention.

use vstd::prelude::*;
use vstd::arithmetic::div_mod::{lemma_fundamental_div_mod, lemma_div_is_ordered};
use crate::assets::{AssetLibrary, BuildingCategory};
use crate::chunking::{
    CityGenParams, sp_block_span_x, sp_block_span_z, sp_chunk_span_x, sp_chunk_span_z,
    block_world_span, chunk_world_span, BLOCK_SPAN_MAX, CHUNK_SPAN_MAX,
};
use crate::geom::{clamp_i64, sp_clamp, isqrt, sp_isqrt, floor_div, Vec3i};
use crate::rng::{XorShift64, sp_next, sp_hash2, hash2};

verus! {

/// One generated object: world-space center (milli-units), per-axis scale
/// (thousandths) and the archetype it instantiates.
#[derive(Copy, Clone, PartialEq, Eq, Structural, Debug)]
pub struct Placement {
    pub center: Vec3i,
    pub scale: Vec3i,
    pub archetype_id: u16,
}

/// Generation request: which cell, under which global seed.
#[derive(Copy, Clone, PartialEq, Eq, Structural, Debug)]
pub struct DesignContext {
    pub cx: i32,
    pub cz: i32,
    pub seed: u64,
}

/// Cell coordinates a designer accepts: the wrapped world-bounds range.
pub open spec fn sp_ctx_wf(ctx: &DesignContext) -> bool {
    &&& -32768 <= ctx.cx <= 32767
    &&& -32768 <= ctx.cz <= 32767
}

/// Bound on any lot center coordinate produced under well-formed
/// parameters and in-range cell coordinates.
pub const LOT_POS_MAX: i64 = 5_000_000_000_000_000;

/// A zone-weight adjustment is bounded so the weights stay in range.
pub open spec fn sp_bias_wf(bias: (i64, i64, i64)) -> bool {
    &&& -2000 <= bias.0 <= 2000
    &&& -2000 <= bias.1 <= 2000
    &&& -2000 <= bias.2 <= 2000
}

/// Distance of a lot from the world origin in milli-units, with each
/// coordinate first clamped so the squares stay in range.
pub open spec fn sp_dist_milli(x: int, z: int) -> int {
    let xc = sp_clamp(x, -2_000_000_000, 2_000_000_000);
    let zc = sp_clamp(z, -2_000_000_000, 2_000_000_000);
    sp_isqrt((xc * xc + zc * zc) as nat) as int
}

/// Base three-way zone weighting (low-rise, high-rise, landmark) in
/// thousandths, as a function of distance from the world origin: an "old
/// town" of low-rise near the center, a high-rise ring farther out, and a
/// low constant landmark share.
pub open spec fn sp_zone_base(x: int, z: int) -> (int, int, int) {
    let dist = sp_dist_milli(x, z);
    let ot = sp_clamp(1000 - dist / 900, 0, 1000);
    let tr = sp_clamp((dist - 300_000) / 700, 0, 1000);
    (
        (550 * ot + 250 * (1000 - ot)) / 1000,
        (650 * tr + 100 * (1000 - tr)) / 1000,
        150 + (50 * (ot + tr)) / 1000,
    )
}

/// A coordinate lies near a periodic 60-unit "seam" line, where landmark
/// probability is boosted to suggest gates and walls.
pub open spec fn sp_seam(c: int) -> bool {
    let m = c % 60_000;
    m < 1200 || m >= 58_800
}

/// Zone weights after the seam boost and an external adjustment vector,
/// each clamped into range; the landmark weight stays at least 1, so the
/// total weight is always positive.
pub open spec fn sp_zone_adj(x: int, z: int, bias: (i64, i64, i64)) -> (int, int, int) {
    let (wl, wh, wd) = sp_zone_base(x, z);
    let wd_boost = if sp_seam(x) || sp_seam(z) {
        if wd + 200 > 800 {
            800
        } else {
            wd + 200
        }
    } else {
        wd
    };
    (
        sp_clamp(wl + bias.0, 0, 2000),
        sp_clamp(wh + bias.1, 0, 2000),
        sp_clamp(wd_boost + bias.2, 1, 2000),
    )
}

/// One lot: one category draw from the zone weighting, then — unless the
/// category has no registered archetypes, in which case the lot is
/// skipped — a uniform archetype draw and three scale-jitter draws, with
/// the vertical center recomputed so the object rests on the ground.
pub open spec fn sp_lot_step(
    p: &CityGenParams,
    a: &AssetLibrary,
    bias: (i64, i64, i64),
    rng: u64,
    acc: Seq<Placement>,
    x: int,
    z: int,
) -> (u64, Seq<Placement>) {
    let (wl, wh, wd) = sp_zone_adj(x, z, bias);
    let s = (wl + wh + wd) as u64;
    let r1 = sp_next(rng);
    let t = r1 % s;
    let cat = if t < wl as u64 {
        BuildingCategory::Lowrise
    } else if t < (wl + wh) as u64 {
        BuildingCategory::Highrise
    } else {
        BuildingCategory::Landmark
    };
    let ids = a.sp_indices(cat);
    if ids.len() == 0 {
        (r1, acc)
    } else {
        let r2 = sp_next(r1);
        let k = r2 % ids.len() as u64;
        let id = ids[k as int];
        let r3 = sp_next(r2);
        let sx = 850 + r3 % 351;
        let r4 = sp_next(r3);
        let sz = 850 + r4 % 351;
        let r5 = sp_next(r4);
        let sy = match cat {
            BuildingCategory::Lowrise => 800 + r5 % 701,
            BuildingCategory::Highrise => 1200 + r5 % 1301,
            BuildingCategory::Landmark => 1000 + r5 % 1201,
        };
        let cy = (a.archetypes@[id as int].base_half.y * sy) / 1000;
        let pl = Placement {
            center: Vec3i { x: x as i64, y: cy as i64, z: z as i64 },
            scale: Vec3i { x: sx as i64, y: sy as i64, z: sz as i64 },
            archetype_id: id as u16,
        };
        (r5, acc.push(pl))
    }
}

/// Base zone weights in thousandths; each component within its fixed
/// range, so the bias clamps can be reasoned about.
fn zone_weights_base(x: i64, z: i64) -> (r: (i64, i64, i64))
    ensures
        (r.0 as int, r.1 as int, r.2 as int) == sp_zone_base(x as int, z as int),
        250 <= r.0 <= 550,
        100 <= r.1 <= 650,
        150 <= r.2 <= 250,
{
    let xc = clamp_i64(x, -2_000_000_000, 2_000_000_000);
    let zc = clamp_i64(z, -2_000_000_000, 2_000_000_000);
    let xa: u64 = if xc < 0 {
        (-xc) as u64
    } else {
        xc as u64
    };
    let za: u64 = if zc < 0 {
        (-zc) as u64
    } else {
        zc as u64
    };
    proof {
        assert(xa * xa <= 4_000_000_000_000_000_000 && za * za
            <= 4_000_000_000_000_000_000) by (nonlinear_arith)
            requires
                xa <= 2_000_000_000u64,
                za <= 2_000_000_000u64,
        ;
        assert(xa as int * xa as int == sp_clamp(x as int, -2_000_000_000, 2_000_000_000)
            * sp_clamp(x as int, -2_000_000_000, 2_000_000_000)) by (nonlinear_arith)
            requires
                xa as int == sp_clamp(x as int, -2_000_000_000, 2_000_000_000) || xa as int
                    == -sp_clamp(x as int, -2_000_000_000, 2_000_000_000),
        ;
        assert(za as int * za as int == sp_clamp(z as int, -2_000_000_000, 2_000_000_000)
            * sp_clamp(z as int, -2_000_000_000, 2_000_000_000)) by (nonlinear_arith)
            requires
                za as int == sp_clamp(z as int, -2_000_000_000, 2_000_000_000) || za as int
                    == -sp_clamp(z as int, -2_000_000_000, 2_000_000_000),
        ;
    }
    let d2: u64 = xa * xa + za * za;
    let dist: u64 = isqrt(d2);
    proof {
        assert(dist as int * dist as int <= d2 as int);
        assert(dist <= 3_000_000_000u64) by (nonlinear_arith)
            requires
                dist as int * dist as int <= d2 as int,
                d2 <= 8_000_000_000_000_000_000u64,
        ;
    }
    let d900: i64 = (dist / 900) as i64;
    let ot = clamp_i64(1000 - d900, 0, 1000);
    let tr: i64 = if dist <= 300_000 {
        proof {
            lemma_div_is_ordered(dist as int - 300_000, 0, 700);
        }
        0
    } else {
        clamp_i64(((dist - 300_000) / 700) as i64, 0, 1000)
    };
    let wl = (550 * ot + 250 * (1000 - ot)) / 1000;
    let wh = (650 * tr + 100 * (1000 - tr)) / 1000;
    let wd = 150 + (50 * (ot + tr)) / 1000;
    (wl, wh, wd)
}

/// Whether a coordinate lies near a periodic seam line.
fn seam(c: i64) -> (r: bool)
    requires
        -LOT_POS_MAX <= c <= LOT_POS_MAX,
    ensures
        r == sp_seam(c as int),
{
    let q = floor_div(c, 60_000);
    proof {
        lemma_fundamental_div_mod(c as int, 60_000);
    }
    let m = c - 60_000 * q;
    m < 1200 || m >= 58_800
}

/// Zone weights after seam boost and adjustment, with the positive-total
/// guarantee needed before drawing a category.
fn zone_weights_adj(x: i64, z: i64, bias: (i64, i64, i64)) -> (r: (i64, i64, i64))
    requires
        -LOT_POS_MAX <= x <= LOT_POS_MAX,
        -LOT_POS_MAX <= z <= LOT_POS_MAX,
        sp_bias_wf(bias),
    ensures
        (r.0 as int, r.1 as int, r.2 as int) == sp_zone_adj(x as int, z as int, bias),
        0 <= r.0 <= 2000,
        0 <= r.1 <= 2000,
        1 <= r.2 <= 2000,
{
    let (wl, wh, wd) = zone_weights_base(x, z);
    let wd_boost = if seam(x) || seam(z) {
        if wd + 200 > 800 {
            800
        } else {
            wd + 200
        }
    } else {
        wd
    };
    (
        clamp_i64(wl + bias.0, 0, 2000),
        clamp_i64(wh + bias.1, 0, 2000),
        clamp_i64(wd_boost + bias.2, 1, 2000),
    )
}

/// Runs one lot of the generation: draws a category, and unless the
/// category is empty, an archetype and its scale jitter; appends the
/// resulting placement.
fn lot_step(
    p: &CityGenParams,
    assets: &AssetLibrary,
    bias: (i64, i64, i64),
    rng: &mut XorShift64,
    out: &mut Vec<Placement>,
    x: i64,
    z: i64,
)
    requires
        p.wf(),
        assets.wf(),
        sp_bias_wf(bias),
        -LOT_POS_MAX <= x <= LOT_POS_MAX,
        -LOT_POS_MAX <= z <= LOT_POS_MAX,
    ensures
        ({
            let st = sp_lot_step(
                p,
                assets,
                bias,
                old(rng).state(),
                old(out)@,
                x as int,
                z as int,
            );
            final(rng).state() == st.0 && final(out)@ == st.1
        }),
{
    let (wl, wh, wd) = zone_weights_adj(x, z, bias);
    let s = (wl + wh + wd) as u64;
    let t = rng.next_below(s);
    let cat = if t < wl as u64 {
        BuildingCategory::Lowrise
    } else if t < (wl + wh) as u64 {
        BuildingCategory::Highrise
    } else {
        BuildingCategory::Landmark
    };
    let ids = assets.indices_by_category(cat);
    if ids.len() == 0 {
        return ;
    }
    let k = rng.next_below(ids.len() as u64);
    let id = ids[k as usize];
    let sx = 850 + rng.next_below(351) as i64;
    let sz = 850 + rng.next_below(351) as i64;
    let sy = match cat {
        BuildingCategory::Lowrise => 800 + rng.next_below(701) as i64,
        BuildingCategory::Highrise => 1200 + rng.next_below(1301) as i64,
        BuildingCategory::Landmark => 1000 + rng.next_below(1201) as i64,
    };
    proof {
        assert(assets.sp_indices(cat)[k as int] == id);
    }
    let base = assets.base_half(id);
    proof {
        assert(1 <= base.y <= crate::assets::BASE_HALF_MAX);
        assert(base.y as int * sy as int <= 100_000 * 2501 && 0 <= base.y as int
            * sy as int) by (nonlinear_arith)
            requires
                1 <= base.y as int <= 100_000,
                800 <= sy as int <= 2500,
        ;
    }
    let cy = ((base.y as u64 * sy as u64) / 1000) as i64;
    out.push(
        Placement {
            center: Vec3i { x, y: cy, z },
            scale: Vec3i { x: sx, y: sy, z: sz },
            archetype_id: id as u16,
        },
    );
}

/// Offset of a block's lot origin from its cell origin along x: earlier
/// blocks, half a minor road, minus half the cell span (the cell's
/// content is centered on its origin), plus the accumulated extra width
/// of major roads already passed.
pub open spec fn sp_block_x(p: &CityGenParams, bxi: int) -> int {
    let me = p.major_every as int;
    let extra = if me > 0 && bxi % me > 0 && bxi / me > 0 {
        (bxi / me) * (p.road_w_major - p.road_w_minor)
    } else {
        0
    };
    bxi * sp_block_span_x(p) + p.road_w_minor / 2 - sp_chunk_span_x(p) / 2 + extra
}

/// Offset of a block's lot origin from its cell origin along z.
pub open spec fn sp_block_z(p: &CityGenParams, bzi: int) -> int {
    let me = p.major_every as int;
    let extra = if me > 0 && bzi % me > 0 && bzi / me > 0 {
        (bzi / me) * (p.road_w_major - p.road_w_minor)
    } else {
        0
    };
    bzi * sp_block_span_z(p) + p.road_w_minor / 2 - sp_chunk_span_z(p) / 2 + extra
}

/// World-space x coordinate of a lot's center.
pub open spec fn sp_lot_x(p: &CityGenParams, cx: int, bxi: int, lx: int) -> int {
    cx * sp_chunk_span_x(p) + sp_block_x(p, bxi) + lx * (p.lot_w + p.lot_gap) + p.lot_w
        / 2
}

/// World-space z coordinate of a lot's center.
pub open spec fn sp_lot_z(p: &CityGenParams, cz: int, bzi: int, lz: int) -> int {
    cz * sp_chunk_span_z(p) + sp_block_z(p, bzi) + lz * (p.lot_d + p.lot_gap) + p.lot_d
        / 2
}

/// A block falls on a major-road row or column and is skipped whole.
pub open spec fn sp_block_is_major(p: &CityGenParams, bxi: int, bzi: int) -> bool {
    let me = p.major_every as int;
    me > 0 && (bxi % me == 0 || bzi % me == 0)
}

/// State (stream, placements) after the first `n` lots of one block, in
/// raster order (`lx` outer, `lz` inner).
pub open spec fn sp_lots(
    p: &CityGenParams,
    a: &AssetLibrary,
    bias: (i64, i64, i64),
    cx: int,
    cz: int,
    bxi: int,
    bzi: int,
    rng: u64,
    n: nat,
) -> (u64, Seq<Placement>)
    decreases n,
{
    if n == 0 {
        (rng, Seq::empty())
    } else {
        let prev = sp_lots(p, a, bias, cx, cz, bxi, bzi, rng, (n - 1) as nat);
        let lx = (n - 1) as int / p.lots_z as int;
        let lz = (n - 1) as int % p.lots_z as int;
        sp_lot_step(
            p,
            a,
            bias,
            prev.0,
            prev.1,
            sp_lot_x(p, cx, bxi, lx),
            sp_lot_z(p, cz, bzi, lz),
        )
    }
}

/// State (stream, placements) after the first `m` blocks of a cell, in
/// raster order (`bxi` outer, `bzi` inner); major-road blocks produce
/// nothing and consume no draws.
pub open spec fn sp_blocks(
    p: &CityGenParams,
    a: &AssetLibrary,
    bias: (i64, i64, i64),
    cx: int,
    cz: int,
    rng: u64,
    m: nat,
) -> (u64, Seq<Placement>)
    decreases m,
{
    if m == 0 {
        (rng, Seq::empty())
    } else {
        let prev = sp_blocks(p, a, bias, cx, cz, rng, (m - 1) as nat);
        let bxi = (m - 1) as int / p.blocks_per_chunk_z as int;
        let bzi = (m - 1) as int % p.blocks_per_chunk_z as int;
        if sp_block_is_major(p, bxi, bzi) {
            prev
        } else {
            let ls = sp_lots(
                p,
                a,
                bias,
                cx,
                cz,
                bxi,
                bzi,
                prev.0,
                (p.lots_x * p.lots_z) as nat,
            );
            (ls.0, prev.1 + ls.1)
        }
    }
}

/// The complete design of one cell: every block in raster order, from a
/// stream seeded by the global seed and the cell-coordinate hash.  This
/// is the mathematical definition the executable designers are proved
/// equal to; it depends on nothing but its arguments.
pub open spec fn sp_design(
    p: &CityGenParams,
    a: &AssetLibrary,
    bias: (i64, i64, i64),
    cx: i32,
    cz: i32,
) -> Seq<Placement> {
    sp_blocks(
        p,
        a,
        bias,
        cx as int,
        cz as int,
        (p.seed ^ sp_hash2(cx, cz)) | 1,
        (p.blocks_per_chunk_x * p.blocks_per_chunk_z) as nat,
    ).1
}

/// Generates one cell's placements, equal to the `sp_design` fold.
fn design_chunk_impl(
    p: &CityGenParams,
    bias: (i64, i64, i64),
    ctx: &DesignContext,
    assets: &AssetLibrary,
) -> (r: Vec<Placement>)
    requires
        p.wf(),
        assets.wf(),
        sp_bias_wf(bias),
        sp_ctx_wf(ctx),
    ensures
        r@ == sp_design(p, assets, bias, ctx.cx, ctx.cz),
{
    let (bspan_x, bspan_z) = block_world_span(p);
    let (cspan_x, cspan_z) = chunk_world_span(p);
    proof {
        assert(-32768 * CHUNK_SPAN_MAX <= ctx.cx as int * cspan_x as int <= 32768
            * CHUNK_SPAN_MAX) by (nonlinear_arith)
            requires
                -32768 <= ctx.cx as int <= 32767,
                1 <= cspan_x as int <= CHUNK_SPAN_MAX as int,
        ;
        assert(-32768 * CHUNK_SPAN_MAX <= ctx.cz as int * cspan_z as int <= 32768
            * CHUNK_SPAN_MAX) by (nonlinear_arith)
            requires
                -32768 <= ctx.cz as int <= 32767,
                1 <= cspan_z as int <= CHUNK_SPAN_MAX as int,
        ;
    }
    let chunk_org_x: i64 = ctx.cx as i64 * cspan_x;
    let chunk_org_z: i64 = ctx.cz as i64 * cspan_z;
    let half_cspan_x: i64 = (cspan_x as u64 / 2) as i64;
    let half_cspan_z: i64 = (cspan_z as u64 / 2) as i64;
    let half_road: i64 = (p.road_w_minor as u64 / 2) as i64;
    let half_lot_w: i64 = (p.lot_w as u64 / 2) as i64;
    let half_lot_d: i64 = (p.lot_d as u64 / 2) as i64;
    let mut rng = XorShift64::new(p.seed ^ hash2(ctx.cx, ctx.cz));
    let mut out: Vec<Placement> = Vec::new();
    proof {
        assert(p.blocks_per_chunk_x * p.blocks_per_chunk_z <= 65536 && p.lots_x
            * p.lots_z <= 65536 && p.blocks_per_chunk_x * p.blocks_per_chunk_z >= 1
            && p.lots_x * p.lots_z >= 1) by (nonlinear_arith)
            requires
                1 <= p.blocks_per_chunk_x as int <= 256,
                1 <= p.blocks_per_chunk_z as int <= 256,
                1 <= p.lots_x as int <= 256,
                1 <= p.lots_z as int <= 256,
        ;
    }
    let nblocks: usize = p.blocks_per_chunk_x * p.blocks_per_chunk_z;
    let nlots: usize = p.lots_x * p.lots_z;
    let ghost seed0: u64 = (p.seed ^ sp_hash2(ctx.cx, ctx.cz)) | 1;
    let mut m: usize = 0;
    while m < nblocks
        invariant
            p.wf(),
            assets.wf(),
            sp_bias_wf(bias),
            sp_ctx_wf(ctx),
            nblocks == p.blocks_per_chunk_x * p.blocks_per_chunk_z,
            nlots == p.lots_x * p.lots_z,
            m <= nblocks,
            bspan_x == sp_block_span_x(p),
            bspan_z == sp_block_span_z(p),
            cspan_x == sp_chunk_span_x(p),
            cspan_z == sp_chunk_span_z(p),
            1 <= cspan_x <= CHUNK_SPAN_MAX,
            1 <= cspan_z <= CHUNK_SPAN_MAX,
            1 <= bspan_x <= BLOCK_SPAN_MAX,
            1 <= bspan_z <= BLOCK_SPAN_MAX,
            chunk_org_x == ctx.cx as int * sp_chunk_span_x(p),
            chunk_org_z == ctx.cz as int * sp_chunk_span_z(p),
            -32768 * CHUNK_SPAN_MAX <= chunk_org_x <= 32768 * CHUNK_SPAN_MAX,
            -32768 * CHUNK_SPAN_MAX <= chunk_org_z <= 32768 * CHUNK_SPAN_MAX,
            half_cspan_x == sp_chunk_span_x(p) / 2,
            half_cspan_z == sp_chunk_span_z(p) / 2,
            half_road == p.road_w_minor / 2,
            half_lot_w == p.lot_w / 2,
            half_lot_d == p.lot_d / 2,
            (rng.state(), out@) == sp_blocks(
                p,
                assets,
                bias,
                ctx.cx as int,
                ctx.cz as int,
                seed0,
                m as nat,
            ),
        decreases nblocks - m,
    {
        let bxi: usize = m / p.blocks_per_chunk_z;
        let bzi: usize = m % p.blocks_per_chunk_z;
        proof {
            assert(bxi < p.blocks_per_chunk_x) by (nonlinear_arith)
                requires
                    bxi == m as int / p.blocks_per_chunk_z as int,
                    (m as int) < (p.blocks_per_chunk_x as int) * (p.blocks_per_chunk_z as int),
                    1 <= p.blocks_per_chunk_z as int,
            ;
        }
        let is_major = p.major_every > 0 && (bxi % p.major_every == 0 || bzi
            % p.major_every == 0);
        if !is_major {
            proof {
                assert(0 <= bxi as int * bspan_x as int <= 255 * BLOCK_SPAN_MAX && 0
                    <= bzi as int * bspan_z as int <= 255 * BLOCK_SPAN_MAX)
                    by (nonlinear_arith)
                    requires
                        0 <= bxi as int <= 255,
                        0 <= bzi as int <= 255,
                        1 <= bspan_x as int <= BLOCK_SPAN_MAX as int,
                        1 <= bspan_z as int <= BLOCK_SPAN_MAX as int,
                ;
            }
            let mut block_x: i64 = bxi as i64 * bspan_x + half_road - half_cspan_x;
            let mut block_z: i64 = bzi as i64 * bspan_z + half_road - half_cspan_z;
            if p.major_every > 0 && bxi % p.major_every > 0 && bxi / p.major_every > 0 {
                proof {
                    assert(0 <= (bxi as int / p.major_every as int) * (p.road_w_major
                        - p.road_w_minor) <= 256 * 1_000_000) by (nonlinear_arith)
                        requires
                            0 <= bxi as int / p.major_every as int <= 256,
                            0 <= p.road_w_major - p.road_w_minor <= 1_000_000,
                    ;
                }
                block_x += (bxi / p.major_every) as i64 * (p.road_w_major
                    - p.road_w_minor);
            }
            if p.major_every > 0 && bzi % p.major_every > 0 && bzi / p.major_every > 0 {
                proof {
                    assert(0 <= (bzi as int / p.major_every as int) * (p.road_w_major
                        - p.road_w_minor) <= 256 * 1_000_000) by (nonlinear_arith)
                        requires
                            0 <= bzi as int / p.major_every as int <= 256,
                            0 <= p.road_w_major - p.road_w_minor <= 1_000_000,
                    ;
                }
                block_z += (bzi / p.major_every) as i64 * (p.road_w_major
                    - p.road_w_minor);
            }
            proof {
                assert(block_x == sp_block_x(p, bxi as int));
                assert(block_z == sp_block_z(p, bzi as int));
            }
            let ghost base_st = sp_blocks(
                p,
                assets,
                bias,
                ctx.cx as int,
                ctx.cz as int,
                seed0,
                m as nat,
            );
            let mut n: usize = 0;
            while n < nlots
                invariant
                    p.wf(),
                    assets.wf(),
                    sp_bias_wf(bias),
                    sp_ctx_wf(ctx),
                    nlots == p.lots_x * p.lots_z,
                    n <= nlots,
                    bspan_x == sp_block_span_x(p),
                    bspan_z == sp_block_span_z(p),
                    cspan_x == sp_chunk_span_x(p),
                    cspan_z == sp_chunk_span_z(p),
                    chunk_org_x == ctx.cx as int * sp_chunk_span_x(p),
                    chunk_org_z == ctx.cz as int * sp_chunk_span_z(p),
                    -32768 * CHUNK_SPAN_MAX <= chunk_org_x <= 32768 * CHUNK_SPAN_MAX,
                    -32768 * CHUNK_SPAN_MAX <= chunk_org_z <= 32768 * CHUNK_SPAN_MAX,
                    half_lot_w == p.lot_w / 2,
                    half_lot_d == p.lot_d / 2,
                    bxi < p.blocks_per_chunk_x,
                    bzi < p.blocks_per_chunk_z,
                    block_x == sp_block_x(p, bxi as int),
                    block_z == sp_block_z(p, bzi as int),
                    -CHUNK_SPAN_MAX <= block_x <= CHUNK_SPAN_MAX,
                    -CHUNK_SPAN_MAX <= block_z <= CHUNK_SPAN_MAX,
                    base_st == sp_blocks(
                        p,
                        assets,
                        bias,
                        ctx.cx as int,
                        ctx.cz as int,
                        seed0,
                        m as nat,
                    ),
                    rng.state() == sp_lots(
                        p,
                        assets,
                        bias,
                        ctx.cx as int,
                        ctx.cz as int,
                        bxi as int,
                        bzi as int,
                        base_st.0,
                        n as nat,
                    ).0,
                    out@ == base_st.1 + sp_lots(
                        p,
                        assets,
                        bias,
                        ctx.cx as int,
                        ctx.cz as int,
                        bxi as int,
                        bzi as int,
                        base_st.0,
                        n as nat,
                    ).1,
                decreases nlots - n,
            {
                let lx: usize = n / p.lots_z;
                let lz: usize = n % p.lots_z;
                proof {
                    assert(lx < p.lots_x) by (nonlinear_arith)
                        requires
                            lx == n as int / p.lots_z as int,
                            (n as int) < (p.lots_x as int) * (p.lots_z as int),
                            1 <= p.lots_z as int,
                    ;
                    assert(0 <= lx as int * (p.lot_w + p.lot_gap) <= 255 * 2_000_000 && 0
                        <= lz as int * (p.lot_d + p.lot_gap) <= 255 * 2_000_000)
                        by (nonlinear_arith)
                        requires
                            0 <= lx as int <= 255,
                            0 <= lz as int <= 255,
                            1 <= p.lot_w <= 1_000_000,
                            1 <= p.lot_d <= 1_000_000,
                            0 <= p.lot_gap <= 1_000_000,
                    ;
                }
                let x: i64 = chunk_org_x + block_x + lx as i64 * (p.lot_w + p.lot_gap)
                    + half_lot_w;
                let z: i64 = chunk_org_z + block_z + lz as i64 * (p.lot_d + p.lot_gap)
                    + half_lot_d;
                proof {
                    assert(x == sp_lot_x(p, ctx.cx as int, bxi as int, lx as int));
                    assert(z == sp_lot_z(p, ctx.cz as int, bzi as int, lz as int));
                }
                lot_step(p, assets, bias, &mut rng, &mut out, x, z);
                n += 1;
            }
            proof {
                assert((rng.state(), out@) == sp_blocks(
                    p,
                    assets,
                    bias,
                    ctx.cx as int,
                    ctx.cz as int,
                    seed0,
                    (m + 1) as nat,
                ));
            }
        } else {
            proof {
                assert((rng.state(), out@) == sp_blocks(
                    p,
                    assets,
                    bias,
                    ctx.cx as int,
                    ctx.cz as int,
                    seed0,
                    (m + 1) as nat,
                ));
            }
        }
        m += 1;
    }
    out
}

/// A procedural designer: a pure function from (parameters, seed, cell)
/// to an ordered placement list, stated by `sp_design_of`.
pub trait CityDesigner {
    /// The mathematical design this designer produces for a cell.
    spec fn sp_design_of(&self, ctx: &DesignContext, assets: &AssetLibrary) -> Seq<
        Placement,
    >;

    /// The designer's configuration is within the supported ranges.
    spec fn wf_designer(&self) -> bool;

    /// Generates the cell's placements; the result is exactly
    /// `sp_design_of`, a function of the arguments alone, so repeated
    /// calls agree bit for bit.
    fn design_chunk(&self, ctx: &DesignContext, assets: &AssetLibrary) -> (r: Vec<
        Placement,
    >)
        requires
            self.wf_designer(),
            assets.wf(),
            sp_ctx_wf(ctx),
        ensures
            r@ == self.sp_design_of(ctx, assets),
    ;
}

/// The rule-based designer: zone weighting by distance from the origin,
/// with no external adjustment.
pub struct RuleDesigner {
    pub params: CityGenParams,
}

impl CityDesigner for RuleDesigner {
    open spec fn sp_design_of(&self, ctx: &DesignContext, assets: &AssetLibrary) -> Seq<
        Placement,
    > {
        sp_design(&self.params, assets, (0i64, 0i64, 0i64), ctx.cx, ctx.cz)
    }

    open spec fn wf_designer(&self) -> bool {
        self.params.wf()
    }

    fn design_chunk(&self, ctx: &DesignContext, assets: &AssetLibrary) -> (r: Vec<
        Placement,
    >) {
        design_chunk_impl(&self.params, (0i64, 0i64, 0i64), ctx, assets)
    }
}

/// A designer that biases the zone weighting with an externally supplied
/// adjustment vector (in thousandths) before sampling.  With a zero
/// adjustment it is behaviorally identical to `RuleDesigner`.
pub struct BiasedDesigner {
    pub params: CityGenParams,
    pub bias: (i64, i64, i64),
}

impl CityDesigner for BiasedDesigner {
    open spec fn sp_design_of(&self, ctx: &DesignContext, assets: &AssetLibrary) -> Seq<
        Placement,
    > {
        sp_design(&self.params, assets, self.bias, ctx.cx, ctx.cz)
    }

    open spec fn wf_designer(&self) -> bool {
        self.params.wf() && sp_bias_wf(self.bias)
    }

    fn design_chunk(&self, ctx: &DesignContext, assets: &AssetLibrary) -> (r: Vec<
        Placement,
    >) {
        design_chunk_impl(&self.params, self.bias, ctx, assets)
    }
}

/// Determinism: for fixed parameters, seed and cell coordinates, the
/// design is one fixed placement list, so any two generation results for
/// the same inputs — in this process or another — are equal.
pub proof fn lemma_design_deterministic(
    p: &CityGenParams,
    a: &AssetLibrary,
    bias: (i64, i64, i64),
    cx: i32,
    cz: i32,
    r1: Seq<Placement>,
    r2: Seq<Placement>,
)
    requires
        r1 == sp_design(p, a, bias, cx, cz),
        r2 == sp_design(p, a, bias, cx, cz),
    ensures
        r1 == r2,
{
}

/// Pure fallback: a biased designer with a zero adjustment designs every
/// cell exactly as the rule designer with the same parameters does.
pub proof fn lemma_zero_bias_matches_rule(
    b: &BiasedDesigner,
    r: &RuleDesigner,
    ctx: &DesignContext,
    assets: &AssetLibrary,
)
    requires
        b.bias == (0i64, 0i64, 0i64),
        b.params == r.params,
    ensures
        b.sp_design_of(ctx, assets) == r.sp_design_of(ctx, assets),
{
}

} // verus!

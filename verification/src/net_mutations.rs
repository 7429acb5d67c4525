//! Out-of-band mutation ingest: parsing the fixed 12-byte wire packet
//! and applying it to the active cell set.  The socket that receives
//! packets belongs to the embedding application; malformed or
//! out-of-range packets are dropped silently and change nothing.

use vstd::prelude::*;
use crate::assets::AssetLibrary;
use crate::chunking::{ChunkKey, ChunkManager, RuntimePlacement};
use crate::city_store::{sp_u16_at, sp_u32_at};
use crate::geom::{clamp_i64, sp_clamp, Vec3i};

verus! {

/// One decoded mutation edit: target cell, placement index, new
/// archetype and the scale-jitter code.
#[derive(Copy, Clone, PartialEq, Eq, Structural, Debug)]
pub struct MutationPacket {
    pub cell: ChunkKey,
    pub index: u32,
    pub archetype_id: u16,
    pub scale_code: u16,
}

/// Number of bytes of one wire packet.
pub const PACKET_BYTES: usize = 12;

/// The packed cell key decodes as two signed 16-bit halves: the column
/// in the high half, the row in the low half.
pub open spec fn sp_packet_cell(key: u32) -> ChunkKey {
    ChunkKey(((key >> 16) as u16) as i16 as i32, ((key & 0xFFFF) as u16) as i16 as i32)
}

/// The packet a 12-byte wire datagram decodes to; anything of another
/// length is malformed.
pub open spec fn sp_parse_packet(b: Seq<u8>) -> Option<MutationPacket> {
    if b.len() != PACKET_BYTES {
        None
    } else {
        Some(
            MutationPacket {
                cell: sp_packet_cell(sp_u32_at(b, 0)),
                index: sp_u32_at(b, 4),
                archetype_id: sp_u16_at(b, 8),
                scale_code: sp_u16_at(b, 10),
            },
        )
    }
}

/// Parses a wire datagram; `None` exactly on malformed input.
pub fn parse_packet(bytes: &Vec<u8>) -> (r: Option<MutationPacket>)
    ensures
        r == sp_parse_packet(bytes@),
{
    if bytes.len() != PACKET_BYTES {
        return None;
    }
    let b0 = bytes[0];
    let b1 = bytes[1];
    let b2 = bytes[2];
    let b3 = bytes[3];
    let key: u32 = (b0 as u32) | ((b1 as u32) << 8) | ((b2 as u32) << 16) | ((
    b3 as u32) << 24);
    let b4 = bytes[4];
    let b5 = bytes[5];
    let b6 = bytes[6];
    let b7 = bytes[7];
    let index: u32 = (b4 as u32) | ((b5 as u32) << 8) | ((b6 as u32) << 16) | ((
    b7 as u32) << 24);
    let aid: u16 = (bytes[8] as u16) | ((bytes[9] as u16) << 8);
    let sc: u16 = (bytes[10] as u16) | ((bytes[11] as u16) << 8);
    let hi: u16 = (key >> 16) as u16;
    let lo: u16 = (key & 0xFFFF) as u16;
    proof {
        assert(key >> 16 <= 0xFFFFu32 && (key & 0xFFFF) <= 0xFFFFu32) by (bit_vector);
    }
    let cx: i32 = #[verifier::truncate] (hi as i16) as i32;
    let cz: i32 = #[verifier::truncate] (lo as i16) as i32;
    Some(
        MutationPacket {
            cell: ChunkKey(cx, cz),
            index,
            archetype_id: aid,
            scale_code: sc,
        },
    )
}

/// Uniform scale factor of a jitter code, in thousandths: between 0.9
/// and 1.1 of the previous scale.
pub open spec fn sp_packet_factor(sc: u16) -> int {
    900 + (sc * 200) / 65535
}

/// One scale component after the jitter: the previous value, clamped
/// into the supported range, times the factor.
pub open spec fn sp_packet_scaled(v: i64, sc: u16) -> int {
    sp_clamp(v as int, 0, 10_000_000) * sp_packet_factor(sc) / 1000
}

/// The placement an in-range mutation packet turns `o` into: the new
/// archetype, jittered scale, and the vertical center recomputed so the
/// object stays grounded.
pub open spec fn sp_mutated_placement(
    assets: &AssetLibrary,
    o: RuntimePlacement,
    pkt: MutationPacket,
) -> RuntimePlacement {
    let sx = sp_packet_scaled(o.scale.x, pkt.scale_code);
    let sy = sp_packet_scaled(o.scale.y, pkt.scale_code);
    let sz = sp_packet_scaled(o.scale.z, pkt.scale_code);
    let base_y = assets.archetypes@[pkt.archetype_id as int].base_half.y;
    RuntimePlacement {
        center: Vec3i { x: o.center.x, y: (base_y * sy / 1000) as i64, z: o.center.z },
        scale: Vec3i { x: sx as i64, y: sy as i64, z: sz as i64 },
        archetype_id: pkt.archetype_id,
    }
}

/// The packet addresses a resident placement and a registered archetype.
pub open spec fn sp_packet_in_range(
    m: &ChunkManager,
    assets: &AssetLibrary,
    pkt: MutationPacket,
) -> bool {
    &&& (pkt.archetype_id as int) < assets.archetypes@.len()
    &&& exists|ci: int|
        0 <= ci < m.loaded@.len() && (#[trigger] m.loaded@[ci]).key == pkt.cell && (
        pkt.index as int) < m.loaded@[ci].placements@.len()
}

/// Applies one decoded mutation edit: if the packet addresses a resident
/// cell, a valid placement index and a registered archetype, that one
/// placement is rewritten; otherwise the packet is dropped and nothing
/// changes.
pub fn apply_mutation(
    cm: &mut ChunkManager,
    assets: &AssetLibrary,
    pkt: MutationPacket,
)
    requires
        old(cm).wf(),
        assets.wf(),
    ensures
        final(cm).wf(),
        final(cm).params == old(cm).params,
        final(cm).bounds == old(cm).bounds,
        final(cm).chunk_radius == old(cm).chunk_radius,
        final(cm).bake_on_miss == old(cm).bake_on_miss,
        final(cm).world_span_x == old(cm).world_span_x,
        final(cm).world_span_z == old(cm).world_span_z,
        final(cm).store_prefix == old(cm).store_prefix,
        final(cm).viewers == old(cm).viewers,
        final(cm).loaded@.len() == old(cm).loaded@.len(),
        forall|i: int|
            0 <= i < old(cm).loaded@.len() ==> (#[trigger] final(cm).loaded@[i]).key
                == old(cm).loaded@[i].key && final(cm).loaded@[i].placements@.len()
                == old(cm).loaded@[i].placements@.len(),
        !sp_packet_in_range(old(cm), assets, pkt) ==> *final(cm) == *old(cm),
        forall|i: int, j: int|
            0 <= i < old(cm).loaded@.len() && 0 <= j
                < old(cm).loaded@[i].placements@.len() && !(old(cm).loaded@[i].key
                == pkt.cell && j == pkt.index as int && (pkt.archetype_id as int)
                < assets.archetypes@.len()) ==> (
            #[trigger] final(cm).loaded@[i].placements@[j]) == old(
                cm,
            ).loaded@[i].placements@[j],
        forall|i: int|
            0 <= i < old(cm).loaded@.len() && (#[trigger] old(cm).loaded@[i]).key
                == pkt.cell && (pkt.index as int) < old(
                cm,
            ).loaded@[i].placements@.len() && (pkt.archetype_id as int)
                < assets.archetypes@.len() ==> final(cm).loaded@[i].placements@[pkt.index as int]
                == sp_mutated_placement(
                assets,
                old(cm).loaded@[i].placements@[pkt.index as int],
                pkt,
            ),
{
    if (pkt.archetype_id as usize) >= assets.len() {
        return ;
    }
    let target = cm.find_cell_index(pkt.cell);
    match target {
        Some(ci) => {
            let len = cm.loaded[ci].placements.len();
            if (pkt.index as usize) < len {
                let idx = pkt.index as usize;
                let o = cm.loaded[ci].placements[idx];
                let f: i64 = 900 + ((pkt.scale_code as u64 * 200) / 65535) as i64;
                proof {
                    assert(f as int == sp_packet_factor(pkt.scale_code));
                }
                let sx0 = clamp_i64(o.scale.x, 0, 10_000_000);
                let sy0 = clamp_i64(o.scale.y, 0, 10_000_000);
                let sz0 = clamp_i64(o.scale.z, 0, 10_000_000);
                proof {
                    assert(0 <= sx0 * f <= 10_000_000 * 1100 && 0 <= sy0 * f
                        <= 10_000_000 * 1100 && 0 <= sz0 * f <= 10_000_000 * 1100)
                        by (nonlinear_arith)
                        requires
                            0 <= sx0 <= 10_000_000,
                            0 <= sy0 <= 10_000_000,
                            0 <= sz0 <= 10_000_000,
                            900 <= f <= 1100,
                    ;
                }
                let sx = ((sx0 as u64 * f as u64) / 1000) as i64;
                let sy = ((sy0 as u64 * f as u64) / 1000) as i64;
                let sz = ((sz0 as u64 * f as u64) / 1000) as i64;
                let base = assets.base_half(pkt.archetype_id as usize);
                proof {
                    assert(1 <= base.y <= crate::assets::BASE_HALF_MAX);
                    assert(0 <= base.y * sy <= 100_000 * 11_000_000)
                        by (nonlinear_arith)
                        requires
                            1 <= base.y <= 100_000,
                            0 <= sy <= 11_000_000,
                    ;
                }
                let cy = ((base.y as u64 * sy as u64) / 1000) as i64;
                let nn = RuntimePlacement {
                    center: Vec3i { x: o.center.x, y: cy, z: o.center.z },
                    scale: Vec3i { x: sx, y: sy, z: sz },
                    archetype_id: pkt.archetype_id,
                };
                proof {
                    assert(nn == sp_mutated_placement(assets, o, pkt));
                }
                cm.loaded[ci].placements[idx] = nn;
                proof {
                    assert forall|i: int|
                        0 <= i < old(cm).loaded@.len() && (#[trigger] old(
                            cm,
                        ).loaded@[i]).key == pkt.cell && (pkt.index as int) < old(
                            cm,
                        ).loaded@[i].placements@.len() implies cm.loaded@[i].placements@[pkt.index as int]
                        == sp_mutated_placement(
                        assets,
                        old(cm).loaded@[i].placements@[pkt.index as int],
                        pkt,
                    ) by {
                        if i != ci {
                            assert(old(cm).loaded@[i].key == old(cm).loaded@[ci as int].key);
                            assert(false);
                        }
                    }
                }
            }
        },
        None => {},
    }
}

/// Parses and applies one wire datagram; malformed packets are dropped
/// with no effect.
pub fn apply_packet(cm: &mut ChunkManager, assets: &AssetLibrary, bytes: &Vec<u8>)
    requires
        old(cm).wf(),
        assets.wf(),
    ensures
        final(cm).wf(),
        final(cm).params == old(cm).params,
        final(cm).bounds == old(cm).bounds,
        final(cm).viewers == old(cm).viewers,
        final(cm).loaded@.len() == old(cm).loaded@.len(),
        sp_parse_packet(bytes@) is None ==> *final(cm) == *old(cm),
        sp_parse_packet(bytes@) matches Some(pkt) && !sp_packet_in_range(
            old(cm),
            assets,
            pkt,
        ) ==> *final(cm) == *old(cm),
        forall|i: int|
            0 <= i < old(cm).loaded@.len() ==> (#[trigger] final(cm).loaded@[i]).key
                == old(cm).loaded@[i].key && final(cm).loaded@[i].placements@.len()
                == old(cm).loaded@[i].placements@.len(),
        sp_parse_packet(bytes@) matches Some(pkt) ==> forall|i: int|
            0 <= i < old(cm).loaded@.len() && (#[trigger] old(cm).loaded@[i]).key
                == pkt.cell && (pkt.index as int) < old(
                cm,
            ).loaded@[i].placements@.len() && (pkt.archetype_id as int)
                < assets.archetypes@.len() ==> final(cm).loaded@[i].placements@[pkt.index as int]
                == sp_mutated_placement(
                assets,
                old(cm).loaded@[i].placements@[pkt.index as int],
                pkt,
            ),
{
    match parse_packet(bytes) {
        Some(pkt) => {
            apply_mutation(cm, assets, pkt);
        },
        None => {},
    }
}

} // verus!

use city_core::assets::AssetLibrary;
use city_core::chunking::{ChunkKey, ChunkManager, CityGenParams, LoadedCell, RuntimePlacement};
use city_core::geom::Vec3i;
use city_core::net_mutations::{apply_mutation, apply_packet, parse_packet, MutationPacket};

fn demo_params() -> CityGenParams {
    CityGenParams {
        lots_x: 3,
        lots_z: 3,
        lot_w: 3000,
        lot_d: 3000,
        lot_gap: 400,
        road_w_minor: 3000,
        road_w_major: 8000,
        major_every: 6,
        blocks_per_chunk_x: 8,
        blocks_per_chunk_z: 8,
        seed: 0xA11CE,
    }
}

fn packet_bytes(cx: i16, cz: i16, index: u32, aid: u16, sc: u16) -> Vec<u8> {
    let key: u32 = ((cx as u16 as u32) << 16) | (cz as u16 as u32);
    let mut b = Vec::new();
    b.extend_from_slice(&key.to_le_bytes());
    b.extend_from_slice(&index.to_le_bytes());
    b.extend_from_slice(&aid.to_le_bytes());
    b.extend_from_slice(&sc.to_le_bytes());
    b
}

fn manager_with_one_cell() -> ChunkManager {
    let mut cm = ChunkManager::new(demo_params(), 1, (-4, 4, -4, 4), false, "demo");
    cm.loaded.push(LoadedCell {
        key: ChunkKey(2, -3),
        placements: vec![
            RuntimePlacement {
                center: Vec3i { x: 1000, y: 900, z: 2000 },
                scale: Vec3i { x: 1000, y: 1000, z: 1000 },
                archetype_id: 0,
            },
            RuntimePlacement {
                center: Vec3i { x: 5000, y: 1600, z: 6000 },
                scale: Vec3i { x: 1000, y: 1000, z: 1000 },
                archetype_id: 3,
            },
        ],
    });
    cm
}

#[test]
fn parse_packet_decodes_fields() {
    let b = packet_bytes(2, -3, 1, 5, 65535);
    let pkt = parse_packet(&b).unwrap();
    assert_eq!(pkt.cell, ChunkKey(2, -3));
    assert_eq!(pkt.index, 1);
    assert_eq!(pkt.archetype_id, 5);
    assert_eq!(pkt.scale_code, 65535);
}

#[test]
fn parse_packet_rejects_wrong_length() {
    assert!(parse_packet(&vec![0; 11]).is_none());
    assert!(parse_packet(&vec![0; 13]).is_none());
    assert!(parse_packet(&vec![]).is_none());
}

#[test]
fn apply_mutation_rewrites_one_placement() {
    let assets = AssetLibrary::new();
    let mut cm = manager_with_one_cell();
    let pkt = MutationPacket {
        cell: ChunkKey(2, -3),
        index: 1,
        archetype_id: 4,
        scale_code: 65535,
    };
    apply_mutation(&mut cm, &assets, pkt);
    let cell = &cm.loaded[0];
    // Untouched placement stays.
    assert_eq!(cell.placements[0].archetype_id, 0);
    assert_eq!(cell.placements[0].scale, Vec3i { x: 1000, y: 1000, z: 1000 });
    // The addressed one got the new archetype, a 1.1 scale and was
    // re-grounded: scale 1000 * 1100 / 1000 = 1100; base_half(4).y =
    // 1600, so y = 1600 * 1100 / 1000 = 1760.
    let n = cell.placements[1];
    assert_eq!(n.archetype_id, 4);
    assert_eq!(n.scale, Vec3i { x: 1100, y: 1100, z: 1100 });
    assert_eq!(n.center, Vec3i { x: 5000, y: 1760, z: 6000 });
}

#[test]
fn minimum_scale_code_shrinks_by_ten_percent() {
    let assets = AssetLibrary::new();
    let mut cm = manager_with_one_cell();
    let pkt = MutationPacket {
        cell: ChunkKey(2, -3),
        index: 0,
        archetype_id: 1,
        scale_code: 0,
    };
    apply_mutation(&mut cm, &assets, pkt);
    let n = cm.loaded[0].placements[0];
    assert_eq!(n.scale, Vec3i { x: 900, y: 900, z: 900 });
    // base_half(1).y = 900: y = 900 * 900 / 1000 = 810.
    assert_eq!(n.center.y, 810);
}

#[test]
fn out_of_range_packets_are_dropped() {
    let assets = AssetLibrary::new();
    let mut cm = manager_with_one_cell();
    let before = cm.loaded[0].placements.clone();
    // Index out of range.
    apply_mutation(&mut cm, &assets, MutationPacket {
        cell: ChunkKey(2, -3),
        index: 7,
        archetype_id: 1,
        scale_code: 0,
    });
    // Unknown cell.
    apply_mutation(&mut cm, &assets, MutationPacket {
        cell: ChunkKey(0, 0),
        index: 0,
        archetype_id: 1,
        scale_code: 0,
    });
    // Unregistered archetype.
    apply_mutation(&mut cm, &assets, MutationPacket {
        cell: ChunkKey(2, -3),
        index: 0,
        archetype_id: 9999,
        scale_code: 0,
    });
    for i in 0..before.len() {
        assert_eq!(before[i], cm.loaded[0].placements[i]);
    }
}

#[test]
fn apply_packet_parses_and_applies() {
    let assets = AssetLibrary::new();
    let mut cm = manager_with_one_cell();
    let b = packet_bytes(2, -3, 0, 2, 65535);
    apply_packet(&mut cm, &assets, &b);
    assert_eq!(cm.loaded[0].placements[0].archetype_id, 2);
    // Malformed datagram: no effect.
    let before = cm.loaded[0].placements.clone();
    apply_packet(&mut cm, &assets, &vec![0; 5]);
    for i in 0..before.len() {
        assert_eq!(before[i], cm.loaded[0].placements[i]);
    }
}

#[test]
fn negative_cell_halves_round_trip_through_the_key() {
    let b = packet_bytes(-32768, 32767, 0, 0, 0);
    let pkt = parse_packet(&b).unwrap();
    assert_eq!(pkt.cell, ChunkKey(-32768, 32767));
}

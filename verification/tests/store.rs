use city_core::chunking::RuntimePlacement;
use city_core::city_store::{
    decode_chunk, decode_chunk_string, dir_path, encode_chunk, encode_chunk_string,
    file_path, i32_dec_string, key, u64_dec_string, ChunkFile,
};
use city_core::geom::Vec3i;

fn sample_placements() -> Vec<RuntimePlacement> {
    vec![
        RuntimePlacement {
            center: Vec3i { x: -123_456, y: 1440, z: 987_654 },
            scale: Vec3i { x: 1000, y: 1600, z: 900 },
            archetype_id: 3,
        },
        RuntimePlacement {
            center: Vec3i { x: 0, y: 0, z: 0 },
            scale: Vec3i { x: 700, y: 2500, z: 1800 },
            archetype_id: 65535,
        },
        RuntimePlacement {
            center: Vec3i { x: i64::MIN, y: i64::MAX, z: -1 },
            scale: Vec3i { x: 1, y: 1, z: 1 },
            archetype_id: 0,
        },
    ]
}

#[test]
fn record_round_trips_exactly() {
    let f = ChunkFile { cx: -7, cz: 12, buildings: sample_placements() };
    let bytes = encode_chunk(&f);
    assert_eq!(bytes.len(), 12 + 50 * 3);
    let back = decode_chunk(&bytes).unwrap();
    assert_eq!(back.cx, -7);
    assert_eq!(back.cz, 12);
    assert_eq!(back.buildings.len(), 3);
    for i in 0..3 {
        assert_eq!(back.buildings[i], f.buildings[i]);
    }
}

#[test]
fn empty_record_round_trips() {
    let f = ChunkFile { cx: 0, cz: 0, buildings: Vec::new() };
    let bytes = encode_chunk(&f);
    assert_eq!(bytes.len(), 12);
    let back = decode_chunk(&bytes).unwrap();
    assert_eq!(back.buildings.len(), 0);
}

#[test]
fn truncated_and_garbage_records_decode_to_none() {
    let f = ChunkFile { cx: 1, cz: 2, buildings: sample_placements() };
    let mut bytes = encode_chunk(&f);
    bytes.pop();
    assert!(decode_chunk(&bytes).is_none());
    assert!(decode_chunk(&vec![]).is_none());
    assert!(decode_chunk(&vec![0, 1, 2, 3, 4]).is_none());
    // Trailing garbage is rejected too.
    let mut bytes2 = encode_chunk(&f);
    bytes2.push(0);
    assert!(decode_chunk(&bytes2).is_none());
}

#[test]
fn string_backend_round_trips_through_base64() {
    let f = ChunkFile { cx: 3, cz: -4, buildings: sample_placements() };
    let text = encode_chunk_string(&f);
    // The text is real base64 of the binary record, not the raw bytes.
    assert!(text.is_ascii());
    assert_ne!(text.len(), encode_chunk(&f).len());
    let back = decode_chunk_string(text.as_str()).unwrap();
    assert_eq!(back.cx, 3);
    assert_eq!(back.cz, -4);
    assert_eq!(back.buildings.len(), 3);
    for i in 0..3 {
        assert_eq!(back.buildings[i], f.buildings[i]);
    }
}

#[test]
fn string_backend_rejects_garbage() {
    assert!(decode_chunk_string("not base64 at all!!!").is_none());
    // Valid base64, but not a valid record.
    assert!(decode_chunk_string("aGVsbG8=").is_none());
}

#[test]
fn decimal_strings_are_exact() {
    assert_eq!(u64_dec_string(0).as_str(), "0");
    assert_eq!(u64_dec_string(9).as_str(), "9");
    assert_eq!(u64_dec_string(10).as_str(), "10");
    assert_eq!(u64_dec_string(18_446_744_073_709_551_615).as_str(), "18446744073709551615");
    assert_eq!(i32_dec_string(0).as_str(), "0");
    assert_eq!(i32_dec_string(-1).as_str(), "-1");
    assert_eq!(i32_dec_string(2_147_483_647).as_str(), "2147483647");
    assert_eq!(i32_dec_string(-2_147_483_648).as_str(), "-2147483648");
}

#[test]
fn paths_and_keys_are_exact() {
    assert_eq!(dir_path("./city_chunks").as_str(), "./city_chunks");
    assert_eq!(file_path("./city_chunks", 3, -4).as_str(), "./city_chunks/3_-4.bin");
    assert_eq!(key(0, 0).as_str(), "city_chunk_0_0");
    assert_eq!(key(-12, 7).as_str(), "city_chunk_-12_7");
}

//! Cell persistence: the binary record format, the string-keyed encoding
//! used by key-value backends, and the store interface the embedding
//! application implements (file-per-cell on disk, or a browser-local
//! key store — the choice is a deployment concern, not a behavioral one).
//!
//! The record is fully specified byte for byte and round-trips exactly.

use vstd::prelude::*;
use crate::chunking::RuntimePlacement;
use crate::geom::Vec3i;

verus! {

/// One persisted cell: its coordinates and its placements.
pub struct ChunkFile {
    pub cx: i32,
    pub cz: i32,
    pub buildings: Vec<RuntimePlacement>,
}

/// The store interface: a flat key-value space of cell records.  The
/// embedding application supplies the backend (a file per cell, a
/// browser-local key store); backends live outside the verifier, so
/// nothing is assumed of what they return — the streaming pass treats
/// any answer as untrusted bytes and validates them.  A failing or
/// absent store only degrades to "always regenerate".
pub trait ChunkStore {
    /// Returns the stored bytes for a cell, or `None` if absent/unreadable.
    fn load(&mut self, cx: i32, cz: i32) -> Option<Vec<u8>>;

    /// Stores the bytes for a cell; returns whether the write succeeded.
    /// Failures are ignored by callers (best-effort persistence).
    fn save(&mut self, cx: i32, cz: i32, bytes: &Vec<u8>) -> bool;
}

/// Little-endian bytes of a 16-bit value.
pub open spec fn sp_u16_le(v: u16) -> Seq<u8> {
    seq![(v & 0xff) as u8, ((v >> 8) & 0xff) as u8]
}

/// Little-endian bytes of a 32-bit value.
pub open spec fn sp_u32_le(v: u32) -> Seq<u8> {
    seq![
        (v & 0xff) as u8,
        ((v >> 8) & 0xff) as u8,
        ((v >> 16) & 0xff) as u8,
        ((v >> 24) & 0xff) as u8,
    ]
}

/// Little-endian bytes of a 64-bit value.
pub open spec fn sp_u64_le(v: u64) -> Seq<u8> {
    seq![
        (v & 0xff) as u8,
        ((v >> 8) & 0xff) as u8,
        ((v >> 16) & 0xff) as u8,
        ((v >> 24) & 0xff) as u8,
        ((v >> 32) & 0xff) as u8,
        ((v >> 40) & 0xff) as u8,
        ((v >> 48) & 0xff) as u8,
        ((v >> 56) & 0xff) as u8,
    ]
}

/// The 16-bit value at byte offset `off`.
pub open spec fn sp_u16_at(b: Seq<u8>, off: int) -> u16 {
    (b[off] as u16) | ((b[off + 1] as u16) << 8)
}

/// The 32-bit value at byte offset `off`.
pub open spec fn sp_u32_at(b: Seq<u8>, off: int) -> u32 {
    (b[off] as u32) | ((b[off + 1] as u32) << 8) | ((b[off + 2] as u32) << 16) | ((b[off
        + 3] as u32) << 24)
}

/// The 64-bit value at byte offset `off`.
pub open spec fn sp_u64_at(b: Seq<u8>, off: int) -> u64 {
    (b[off] as u64) | ((b[off + 1] as u64) << 8) | ((b[off + 2] as u64) << 16) | ((b[off
        + 3] as u64) << 24) | ((b[off + 4] as u64) << 32) | ((b[off + 5] as u64) << 40)
        | ((b[off + 6] as u64) << 48) | ((b[off + 7] as u64) << 56)
}

proof fn lemma_u16_le_round_trip(v: u16)
    ensures
        sp_u16_at(sp_u16_le(v), 0) == v,
{
    assert((((v & 0xff) as u8) as u16) | (((((v >> 8) & 0xff) as u8) as u16) << 8) == v)
        by (bit_vector);
}

proof fn lemma_u32_le_round_trip(v: u32)
    ensures
        sp_u32_at(sp_u32_le(v), 0) == v,
{
    assert((((v & 0xff) as u8) as u32) | (((((v >> 8) & 0xff) as u8) as u32) << 8) | ((((
    (v >> 16) & 0xff) as u8) as u32) << 16) | (((((v >> 24) & 0xff) as u8) as u32) << 24)
        == v) by (bit_vector);
}

proof fn lemma_u64_le_round_trip(v: u64)
    ensures
        sp_u64_at(sp_u64_le(v), 0) == v,
{
    assert((((v & 0xff) as u8) as u64) | (((((v >> 8) & 0xff) as u8) as u64) << 8) | ((((
    (v >> 16) & 0xff) as u8) as u64) << 16) | (((((v >> 24) & 0xff) as u8) as u64) << 24)
        | (((((v >> 32) & 0xff) as u8) as u64) << 32) | (((((v >> 40) & 0xff) as u8)
        as u64) << 40) | (((((v >> 48) & 0xff) as u8) as u64) << 48) | (((((v >> 56)
        & 0xff) as u8) as u64) << 56) == v) by (bit_vector);
}

proof fn lemma_i64_u64_round(v: i64)
    ensures
        ((v as u64) as i64) == v,
{
    assert(((v as u64) as i64) == v) by (bit_vector);
}

proof fn lemma_i32_u32_round(v: i32)
    ensures
        ((v as u32) as i32) == v,
{
    assert(((v as u32) as i32) == v) by (bit_vector);
}

/// The 50 bytes of one placement entry: center (3 × 64-bit), scale
/// (3 × 64-bit), archetype id (16-bit), all little-endian fixed point.
pub open spec fn sp_entry_bytes(p: RuntimePlacement) -> Seq<u8> {
    sp_u64_le(p.center.x as u64) + sp_u64_le(p.center.y as u64) + sp_u64_le(
        p.center.z as u64,
    ) + sp_u64_le(p.scale.x as u64) + sp_u64_le(p.scale.y as u64) + sp_u64_le(
        p.scale.z as u64,
    ) + sp_u16_le(p.archetype_id)
}

/// Number of bytes of one entry.
pub const ENTRY_BYTES: usize = 50;

/// Number of header bytes: cell coordinates and entry count.
pub const HEADER_BYTES: usize = 12;

/// Concatenated entries.
pub open spec fn sp_entries_bytes(s: Seq<RuntimePlacement>) -> Seq<u8>
    decreases s.len(),
{
    if s.len() == 0 {
        Seq::empty()
    } else {
        sp_entries_bytes(s.drop_last()) + sp_entry_bytes(s.last())
    }
}

/// The complete record: coordinates, count, entries.
pub open spec fn sp_encode(cx: i32, cz: i32, s: Seq<RuntimePlacement>) -> Seq<u8> {
    sp_u32_le(cx as u32) + sp_u32_le(cz as u32) + sp_u32_le(s.len() as u32)
        + sp_entries_bytes(s)
}

/// The placement entry decoded at byte offset `off`.
pub open spec fn sp_entry_at(b: Seq<u8>, off: int) -> RuntimePlacement {
    RuntimePlacement {
        center: Vec3i {
            x: sp_u64_at(b, off) as i64,
            y: sp_u64_at(b, off + 8) as i64,
            z: sp_u64_at(b, off + 16) as i64,
        },
        scale: Vec3i {
            x: sp_u64_at(b, off + 24) as i64,
            y: sp_u64_at(b, off + 32) as i64,
            z: sp_u64_at(b, off + 40) as i64,
        },
        archetype_id: sp_u16_at(b, off + 48),
    }
}

/// Decoding a byte string: `None` unless the header is present and the
/// length is exactly the header plus `count` whole entries (no trailing
/// garbage); corruption is indistinguishable from absence.
pub open spec fn sp_decode(b: Seq<u8>) -> Option<(i32, i32, Seq<RuntimePlacement>)> {
    if b.len() < HEADER_BYTES {
        None
    } else {
        let cx = sp_u32_at(b, 0) as i32;
        let cz = sp_u32_at(b, 4) as i32;
        let count = sp_u32_at(b, 8);
        if b.len() != HEADER_BYTES + ENTRY_BYTES * count {
            None
        } else {
            Some(
                (
                    cx,
                    cz,
                    Seq::new(
                        count as nat,
                        |i: int| sp_entry_at(b, HEADER_BYTES + ENTRY_BYTES * i),
                    ),
                ),
            )
        }
    }
}

proof fn lemma_entries_bytes_len(s: Seq<RuntimePlacement>)
    ensures
        sp_entries_bytes(s).len() == ENTRY_BYTES * s.len(),
    decreases s.len(),
{
    if s.len() > 0 {
        lemma_entries_bytes_len(s.drop_last());
    }
}

/// Each entry's bytes sit at offset `ENTRY_BYTES * i` of the
/// concatenation.
proof fn lemma_entries_bytes_index(s: Seq<RuntimePlacement>, i: int, k: int)
    requires
        0 <= i < s.len(),
        0 <= k < ENTRY_BYTES,
    ensures
        sp_entries_bytes(s)[ENTRY_BYTES * i + k] == sp_entry_bytes(s[i])[k],
    decreases s.len(),
{
    lemma_entries_bytes_len(s.drop_last());
    if i == s.len() - 1 {
        assert(s.last() == s[i]);
    } else {
        lemma_entries_bytes_index(s.drop_last(), i, k);
        assert(s.drop_last()[i] == s[i]);
    }
}

/// A placement entry decodes back to itself wherever its bytes lie.
proof fn lemma_entry_round_trip(b: Seq<u8>, off: int, p: RuntimePlacement)
    requires
        0 <= off,
        off + ENTRY_BYTES <= b.len(),
        b.subrange(off, off + ENTRY_BYTES) == sp_entry_bytes(p),
    ensures
        sp_entry_at(b, off) == p,
{
    let sub = b.subrange(off, off + ENTRY_BYTES);
    let eb = sp_entry_bytes(p);
    assert forall|k: int| 0 <= k < ENTRY_BYTES implies b[off + k] == eb[k] by {
        assert(sub[k] == b[off + k]);
    }
    lemma_u64_le_round_trip(p.center.x as u64);
    lemma_u64_le_round_trip(p.center.y as u64);
    lemma_u64_le_round_trip(p.center.z as u64);
    lemma_u64_le_round_trip(p.scale.x as u64);
    lemma_u64_le_round_trip(p.scale.y as u64);
    lemma_u64_le_round_trip(p.scale.z as u64);
    lemma_u16_le_round_trip(p.archetype_id);
    assert(sp_u64_at(b, off) == sp_u64_at(sp_u64_le(p.center.x as u64), 0)) by {
        assert(b[off + 0] == eb[0] && b[off + 1] == eb[1] && b[off + 2] == eb[2] && b[off
            + 3] == eb[3] && b[off + 4] == eb[4] && b[off + 5] == eb[5] && b[off + 6]
            == eb[6] && b[off + 7] == eb[7]);
    }
    assert(sp_u64_at(b, off + 8) == sp_u64_at(sp_u64_le(p.center.y as u64), 0)) by {
        assert(b[off + 8] == eb[8] && b[off + 9] == eb[9] && b[off + 10] == eb[10]
            && b[off + 11] == eb[11] && b[off + 12] == eb[12] && b[off + 13] == eb[13]
            && b[off + 14] == eb[14] && b[off + 15] == eb[15]);
    }
    assert(sp_u64_at(b, off + 16) == sp_u64_at(sp_u64_le(p.center.z as u64), 0)) by {
        assert(b[off + 16] == eb[16] && b[off + 17] == eb[17] && b[off + 18] == eb[18]
            && b[off + 19] == eb[19] && b[off + 20] == eb[20] && b[off + 21] == eb[21]
            && b[off + 22] == eb[22] && b[off + 23] == eb[23]);
    }
    assert(sp_u64_at(b, off + 24) == sp_u64_at(sp_u64_le(p.scale.x as u64), 0)) by {
        assert(b[off + 24] == eb[24] && b[off + 25] == eb[25] && b[off + 26] == eb[26]
            && b[off + 27] == eb[27] && b[off + 28] == eb[28] && b[off + 29] == eb[29]
            && b[off + 30] == eb[30] && b[off + 31] == eb[31]);
    }
    assert(sp_u64_at(b, off + 32) == sp_u64_at(sp_u64_le(p.scale.y as u64), 0)) by {
        assert(b[off + 32] == eb[32] && b[off + 33] == eb[33] && b[off + 34] == eb[34]
            && b[off + 35] == eb[35] && b[off + 36] == eb[36] && b[off + 37] == eb[37]
            && b[off + 38] == eb[38] && b[off + 39] == eb[39]);
    }
    assert(sp_u64_at(b, off + 40) == sp_u64_at(sp_u64_le(p.scale.z as u64), 0)) by {
        assert(b[off + 40] == eb[40] && b[off + 41] == eb[41] && b[off + 42] == eb[42]
            && b[off + 43] == eb[43] && b[off + 44] == eb[44] && b[off + 45] == eb[45]
            && b[off + 46] == eb[46] && b[off + 47] == eb[47]);
    }
    assert(sp_u16_at(b, off + 48) == sp_u16_at(sp_u16_le(p.archetype_id), 0)) by {
        assert(b[off + 48] == eb[48] && b[off + 49] == eb[49]);
    }
    lemma_i64_u64_round(p.center.x);
    lemma_i64_u64_round(p.center.y);
    lemma_i64_u64_round(p.center.z);
    lemma_i64_u64_round(p.scale.x);
    lemma_i64_u64_round(p.scale.y);
    lemma_i64_u64_round(p.scale.z);
}

/// Persistence round-trip: decoding an encoded record gives back exactly
/// the coordinates and placements that were saved.
pub proof fn lemma_record_round_trip(cx: i32, cz: i32, s: Seq<RuntimePlacement>)
    requires
        s.len() <= 0xFFFF_FFFF,
    ensures
        sp_decode(sp_encode(cx, cz, s)) == Some((cx, cz, s)),
{
    let b = sp_encode(cx, cz, s);
    lemma_entries_bytes_len(s);
    assert(b.len() == HEADER_BYTES + ENTRY_BYTES * s.len());
    let hx = sp_u32_le(cx as u32);
    let hz = sp_u32_le(cz as u32);
    let hc = sp_u32_le(s.len() as u32);
    assert forall|k: int| 0 <= k < 4 implies b[k] == hx[k] && b[4 + k] == hz[k] && b[8
        + k] == hc[k] by {
    }
    lemma_u32_le_round_trip(cx as u32);
    lemma_u32_le_round_trip(cz as u32);
    lemma_u32_le_round_trip(s.len() as u32);
    assert(sp_u32_at(b, 0) == cx as u32);
    assert(sp_u32_at(b, 4) == cz as u32);
    assert(sp_u32_at(b, 8) == s.len() as u32);
    lemma_i32_u32_round(cx);
    lemma_i32_u32_round(cz);
    let count = sp_u32_at(b, 8);
    assert(count == s.len());
    let dec = sp_decode(b);
    assert(dec is Some);
    let entries = Seq::new(
        count as nat,
        |i: int| sp_entry_at(b, HEADER_BYTES + ENTRY_BYTES * i),
    );
    assert forall|i: int| 0 <= i < s.len() implies entries[i] == s[i] by {
        let off = HEADER_BYTES + ENTRY_BYTES * i;
        assert(0 <= ENTRY_BYTES * i && ENTRY_BYTES * i + ENTRY_BYTES <= ENTRY_BYTES
            * s.len()) by (nonlinear_arith)
            requires
                0 <= i < s.len(),
        ;
        let sub = b.subrange(off, off + ENTRY_BYTES);
        assert forall|k: int| 0 <= k < ENTRY_BYTES implies sub[k] == sp_entry_bytes(
            s[i],
        )[k] by {
            lemma_entries_bytes_index(s, i, k);
            assert(sub[k] == b[off + k]);
            assert(b[HEADER_BYTES + (ENTRY_BYTES * i + k)] == sp_entries_bytes(
                s,
            )[ENTRY_BYTES * i + k]);
        }
        assert(sub =~= sp_entry_bytes(s[i]));
        lemma_entry_round_trip(b, off, s[i]);
    }
    assert(entries =~= s);
}

/// Appends the little-endian bytes of a 64-bit value.
fn push_u64_le(out: &mut Vec<u8>, v: u64)
    ensures
        final(out)@ == old(out)@ + sp_u64_le(v),
{
    proof {
        assert((v & 0xff) < 256 && ((v >> 8) & 0xff) < 256 && ((v >> 16) & 0xff) < 256
            && ((v >> 24) & 0xff) < 256 && ((v >> 32) & 0xff) < 256 && ((v >> 40) & 0xff)
            < 256 && ((v >> 48) & 0xff) < 256 && ((v >> 56) & 0xff) < 256)
            by (bit_vector);
    }
    out.push((v & 0xff) as u8);
    out.push(((v >> 8) & 0xff) as u8);
    out.push(((v >> 16) & 0xff) as u8);
    out.push(((v >> 24) & 0xff) as u8);
    out.push(((v >> 32) & 0xff) as u8);
    out.push(((v >> 40) & 0xff) as u8);
    out.push(((v >> 48) & 0xff) as u8);
    out.push(((v >> 56) & 0xff) as u8);
    proof {
        assert(final(out)@ =~= old(out)@ + sp_u64_le(v));
    }
}

/// Appends the little-endian bytes of a 32-bit value.
fn push_u32_le(out: &mut Vec<u8>, v: u32)
    ensures
        final(out)@ == old(out)@ + sp_u32_le(v),
{
    proof {
        assert((v & 0xff) < 256 && ((v >> 8) & 0xff) < 256 && ((v >> 16) & 0xff) < 256
            && ((v >> 24) & 0xff) < 256) by (bit_vector);
    }
    out.push((v & 0xff) as u8);
    out.push(((v >> 8) & 0xff) as u8);
    out.push(((v >> 16) & 0xff) as u8);
    out.push(((v >> 24) & 0xff) as u8);
    proof {
        assert(final(out)@ =~= old(out)@ + sp_u32_le(v));
    }
}

/// Appends the little-endian bytes of a 16-bit value.
fn push_u16_le(out: &mut Vec<u8>, v: u16)
    ensures
        final(out)@ == old(out)@ + sp_u16_le(v),
{
    proof {
        assert((v & 0xff) < 256 && ((v >> 8) & 0xff) < 256) by (bit_vector);
    }
    out.push((v & 0xff) as u8);
    out.push(((v >> 8) & 0xff) as u8);
    proof {
        assert(final(out)@ =~= old(out)@ + sp_u16_le(v));
    }
}

/// Encodes a cell record into its exact byte form.
pub fn encode_chunk(f: &ChunkFile) -> (r: Vec<u8>)
    requires
        f.buildings@.len() <= 0xFFFF_FFFF,
    ensures
        r@ == sp_encode(f.cx, f.cz, f.buildings@),
{
    let mut out: Vec<u8> = Vec::new();
    push_u32_le(&mut out, f.cx as u32);
    push_u32_le(&mut out, f.cz as u32);
    push_u32_le(&mut out, f.buildings.len() as u32);
    let ghost header = sp_u32_le(f.cx as u32) + sp_u32_le(f.cz as u32) + sp_u32_le(
        f.buildings@.len() as u32,
    );
    proof {
        assert(out@ =~= header);
    }
    let mut i: usize = 0;
    while i < f.buildings.len()
        invariant
            i <= f.buildings@.len(),
            out@ == header + sp_entries_bytes(f.buildings@.take(i as int)),
        decreases f.buildings@.len() - i,
    {
        let p = f.buildings[i];
        push_u64_le(&mut out, p.center.x as u64);
        push_u64_le(&mut out, p.center.y as u64);
        push_u64_le(&mut out, p.center.z as u64);
        push_u64_le(&mut out, p.scale.x as u64);
        push_u64_le(&mut out, p.scale.y as u64);
        push_u64_le(&mut out, p.scale.z as u64);
        push_u16_le(&mut out, p.archetype_id);
        proof {
            let s = f.buildings@;
            assert(s.take(i + 1).drop_last() =~= s.take(i as int));
            assert(s.take(i + 1).last() == p);
            assert(out@ =~= header + sp_entries_bytes(s.take(i + 1)));
        }
        i += 1;
    }
    proof {
        assert(f.buildings@.take(f.buildings@.len() as int) =~= f.buildings@);
    }
    out
}

/// Reads the 64-bit value at `off`.
fn read_u64_at(b: &Vec<u8>, off: usize) -> (r: u64)
    requires
        off + 8 <= b@.len(),
    ensures
        r == sp_u64_at(b@, off as int),
{
    let n = b.len();
    (b[off] as u64) | ((b[off + 1] as u64) << 8) | ((b[off + 2] as u64) << 16) | ((b[off
        + 3] as u64) << 24) | ((b[off + 4] as u64) << 32) | ((b[off + 5] as u64) << 40)
        | ((b[off + 6] as u64) << 48) | ((b[off + 7] as u64) << 56)
}

/// Reads the 32-bit value at `off`.
fn read_u32_at(b: &Vec<u8>, off: usize) -> (r: u32)
    requires
        off + 4 <= b@.len(),
    ensures
        r == sp_u32_at(b@, off as int),
{
    let n = b.len();
    (b[off] as u32) | ((b[off + 1] as u32) << 8) | ((b[off + 2] as u32) << 16) | ((b[off
        + 3] as u32) << 24)
}

/// Reads the 16-bit value at `off`.
fn read_u16_at(b: &Vec<u8>, off: usize) -> (r: u16)
    requires
        off + 2 <= b@.len(),
    ensures
        r == sp_u16_at(b@, off as int),
{
    let n = b.len();
    (b[off] as u16) | ((b[off + 1] as u16) << 8)
}

/// Decodes a cell record; returns `None` on any malformed input, which
/// callers treat exactly like a missing record.
pub fn decode_chunk(bytes: &Vec<u8>) -> (r: Option<ChunkFile>)
    ensures
        match r {
            Some(f) => sp_decode(bytes@) == Some((f.cx, f.cz, f.buildings@)),
            None => sp_decode(bytes@) is None,
        },
{
    if bytes.len() < HEADER_BYTES {
        return None;
    }
    let cxu = read_u32_at(bytes, 0);
    let czu = read_u32_at(bytes, 4);
    let count = read_u32_at(bytes, 8);
    let need: u64 = HEADER_BYTES as u64 + ENTRY_BYTES as u64 * count as u64;
    if bytes.len() as u64 != need {
        return None;
    }
    let cx = cxu as i32;
    let cz = czu as i32;
    let n = count as usize;
    let blen = bytes.len();
    let mut buildings: Vec<RuntimePlacement> = Vec::new();
    let ghost entries = Seq::new(
        count as nat,
        |i: int| sp_entry_at(bytes@, HEADER_BYTES + ENTRY_BYTES * i),
    );
    let mut i: usize = 0;
    while i < n
        invariant
            i <= n,
            n == count,
            blen == bytes@.len(),
            bytes@.len() == HEADER_BYTES + ENTRY_BYTES * count,
            entries == Seq::new(
                count as nat,
                |j: int| sp_entry_at(bytes@, HEADER_BYTES + ENTRY_BYTES * j),
            ),
            buildings@ =~= entries.take(i as int),
        decreases n - i,
    {
        proof {
            assert(0 <= ENTRY_BYTES * i && ENTRY_BYTES * i + ENTRY_BYTES <= ENTRY_BYTES
                * count) by (nonlinear_arith)
                requires
                    0 <= i as int,
                    (i as int) < count as int,
            ;
        }
        let off: usize = HEADER_BYTES + ENTRY_BYTES * i;
        let p = RuntimePlacement {
            center: Vec3i {
                x: read_u64_at(bytes, off) as i64,
                y: read_u64_at(bytes, off + 8) as i64,
                z: read_u64_at(bytes, off + 16) as i64,
            },
            scale: Vec3i {
                x: read_u64_at(bytes, off + 24) as i64,
                y: read_u64_at(bytes, off + 32) as i64,
                z: read_u64_at(bytes, off + 40) as i64,
            },
            archetype_id: read_u16_at(bytes, off + 48),
        };
        buildings.push(p);
        proof {
            assert(p == entries[i as int]);
            assert(buildings@ =~= entries.take(i + 1));
        }
        i += 1;
    }
    proof {
        assert(entries.take(count as int) =~= entries);
    }
    Some(ChunkFile { cx, cz, buildings })
}

/// The decimal digit character for `d`.
pub open spec fn sp_digit(d: int) -> char {
    if d == 0 {
        '0'
    } else if d == 1 {
        '1'
    } else if d == 2 {
        '2'
    } else if d == 3 {
        '3'
    } else if d == 4 {
        '4'
    } else if d == 5 {
        '5'
    } else if d == 6 {
        '6'
    } else if d == 7 {
        '7'
    } else if d == 8 {
        '8'
    } else {
        '9'
    }
}

/// Decimal digits of a non-negative number, most significant first.
pub open spec fn sp_udec(n: int) -> Seq<char>
    recommends
        n >= 0,
    decreases n,
{
    if n < 10 {
        seq![sp_digit(n)]
    } else {
        sp_udec(n / 10).push(sp_digit(n % 10))
    }
}

/// Decimal form of a signed number.
pub open spec fn sp_idec(v: int) -> Seq<char> {
    if v < 0 {
        seq!['-'] + sp_udec(-v)
    } else {
        sp_udec(v)
    }
}

fn digit_str(d: u64) -> (r: &'static str)
    requires
        d < 10,
    ensures
        r@ == seq![sp_digit(d as int)],
{
    if d == 0 {
        proof {
            reveal_strlit("0");
            assert("0"@ =~= seq![sp_digit(0)]);
        }
        "0"
    } else if d == 1 {
        proof {
            reveal_strlit("1");
            assert("1"@ =~= seq![sp_digit(1)]);
        }
        "1"
    } else if d == 2 {
        proof {
            reveal_strlit("2");
            assert("2"@ =~= seq![sp_digit(2)]);
        }
        "2"
    } else if d == 3 {
        proof {
            reveal_strlit("3");
            assert("3"@ =~= seq![sp_digit(3)]);
        }
        "3"
    } else if d == 4 {
        proof {
            reveal_strlit("4");
            assert("4"@ =~= seq![sp_digit(4)]);
        }
        "4"
    } else if d == 5 {
        proof {
            reveal_strlit("5");
            assert("5"@ =~= seq![sp_digit(5)]);
        }
        "5"
    } else if d == 6 {
        proof {
            reveal_strlit("6");
            assert("6"@ =~= seq![sp_digit(6)]);
        }
        "6"
    } else if d == 7 {
        proof {
            reveal_strlit("7");
            assert("7"@ =~= seq![sp_digit(7)]);
        }
        "7"
    } else if d == 8 {
        proof {
            reveal_strlit("8");
            assert("8"@ =~= seq![sp_digit(8)]);
        }
        "8"
    } else {
        proof {
            reveal_strlit("9");
            assert("9"@ =~= seq![sp_digit(9)]);
        }
        "9"
    }
}

/// Decimal string of an unsigned number.
pub fn u64_dec_string(n: u64) -> (r: String)
    ensures
        r@ == sp_udec(n as int),
    decreases n,
{
    if n < 10 {
        String::from_str(digit_str(n))
    } else {
        let mut s = u64_dec_string(n / 10);
        s.append(digit_str(n % 10));
        proof {
            assert(s@ =~= sp_udec(n as int));
        }
        s
    }
}

/// Decimal string of a signed number.
pub fn i32_dec_string(v: i32) -> (r: String)
    ensures
        r@ == sp_idec(v as int),
{
    if v >= 0 {
        u64_dec_string(v as u64)
    } else {
        let m: i64 = -(v as i64);
        let mut s = String::from_str("-");
        let digits = u64_dec_string(m as u64);
        s.append(digits.as_str());
        proof {
            reveal_strlit("-");
            assert("-"@ =~= seq!['-']);
        }
        s
    }
}

/// Directory under which the file-per-cell backend stores records.
pub fn dir_path(dir: &str) -> (r: String)
    ensures
        r@ == dir@,
{
    String::from_str(dir)
}

/// Path of one cell's record under the store directory:
/// `{dir}/{cx}_{cz}.bin`.
pub open spec fn sp_file_path(dir: Seq<char>, cx: int, cz: int) -> Seq<char> {
    dir + seq!['/'] + sp_idec(cx) + seq!['_'] + sp_idec(cz) + seq!['.', 'b', 'i', 'n']
}

/// Builds a cell record's file path.
pub fn file_path(dir: &str, cx: i32, cz: i32) -> (r: String)
    ensures
        r@ == sp_file_path(dir@, cx as int, cz as int),
{
    let mut s = String::from_str(dir);
    s.append("/");
    let sx = i32_dec_string(cx);
    s.append(sx.as_str());
    s.append("_");
    let sz = i32_dec_string(cz);
    s.append(sz.as_str());
    s.append(".bin");
    proof {
        reveal_strlit("/");
        reveal_strlit("_");
        reveal_strlit(".bin");
        assert("/"@ =~= seq!['/']);
        assert("_"@ =~= seq!['_']);
        assert(".bin"@ =~= seq!['.', 'b', 'i', 'n']);
        assert(s@ =~= sp_file_path(dir@, cx as int, cz as int));
    }
    s
}

/// The flat key under which a key-value backend stores one cell:
/// `city_chunk_{cx}_{cz}`.
pub open spec fn sp_store_key(cx: int, cz: int) -> Seq<char> {
    seq!['c', 'i', 't', 'y', '_', 'c', 'h', 'u', 'n', 'k', '_'] + sp_idec(cx)
        + seq!['_'] + sp_idec(cz)
}

/// Builds a cell's key-value store key.
pub fn key(cx: i32, cz: i32) -> (r: String)
    ensures
        r@ == sp_store_key(cx as int, cz as int),
{
    let mut s = String::from_str("city_chunk_");
    let sx = i32_dec_string(cx);
    s.append(sx.as_str());
    s.append("_");
    let sz = i32_dec_string(cz);
    s.append(sz.as_str());
    proof {
        reveal_strlit("city_chunk_");
        reveal_strlit("_");
        assert("city_chunk_"@ =~= seq!['c', 'i', 't', 'y', '_', 'c', 'h', 'u', 'n', 'k',
            '_']);
        assert("_"@ =~= seq!['_']);
        assert(s@ =~= sp_store_key(cx as int, cz as int));
    }
    s
}

/// The base64 text of a byte sequence (standard alphabet, padded): a
/// pure function of the bytes alone.
pub uninterp spec fn b64_of(bytes: Seq<u8>) -> Seq<char>;

/// Relies on `base64::encode`: standard-alphabet, padded base64 of the
/// input bytes; the result depends on the bytes alone.
#[verifier::external_body]
fn b64_encode(bytes: &Vec<u8>) -> (r: String)
    ensures
        r@ == b64_of(bytes@),
{
    base64::encode(bytes.as_slice())
}

/// Relies on `base64::decode` being the inverse of `base64::encode`: a
/// string that is the encoding of some byte sequence decodes to exactly
/// that sequence.
#[verifier::external_body]
fn b64_decode(s: &str) -> (r: Option<Vec<u8>>)
    ensures
        match r {
            Some(v) => forall|b: Seq<u8>| s@ == b64_of(b) ==> v@ == b,
            None => forall|b: Seq<u8>| s@ != b64_of(b),
        },
{
    base64::decode(s).ok()
}

/// Encodes a record for a string-valued key-value backend: the base64
/// text of its exact binary form.
pub fn encode_chunk_string(f: &ChunkFile) -> (r: String)
    requires
        f.buildings@.len() <= 0xFFFF_FFFF,
    ensures
        r@ == b64_of(sp_encode(f.cx, f.cz, f.buildings@)),
{
    let bytes = encode_chunk(f);
    b64_encode(&bytes)
}

/// Decodes a record from its base64 text; any malformed input is
/// `None`, treated as a missing record.  Applied to the encoding of a
/// record, it returns that record exactly.
pub fn decode_chunk_string(s: &str) -> (r: Option<ChunkFile>)
    ensures
        forall|b: Seq<u8>|
            s@ == b64_of(b) ==> match r {
                Some(f) => sp_decode(b) == Some((f.cx, f.cz, f.buildings@)),
                None => sp_decode(b) is None,
            },
{
    match b64_decode(s) {
        Some(bytes) => decode_chunk(&bytes),
        None => None,
    }
}

} // verus!

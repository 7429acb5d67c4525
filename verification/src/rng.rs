//! Deterministic pseudo-random stream and integer hashing.
//!
//! The generator must be bit-for-bit reproducible across processes and
//! platforms, so both the xorshift stream and the coordinate hash are
//! specified exactly.

use vstd::prelude::*;

verus! {

/// One xorshift step: the whole stream is a pure function of the seed.
pub open spec fn sp_next(x: u64) -> u64 {
    let a = x ^ (x << 13);
    let b = a ^ (a >> 7);
    b ^ (b << 17)
}

/// State of the avalanche mixer after the first multiply round.
pub open spec fn sp_hash2_round1(a: i32, b: i32) -> u128 {
    let x0 = ((a as i64) as u128) ^ ((((b as i64) as i128) << 1) as u128)
        ^ 0x9E37_79B9_7F4A_7C15u128;
    vstd::wrapping::u128_specs::wrapping_mul(x0 ^ (x0 >> 30), 0xBF58_476D_1CE4_E5B9u128)
}

/// Strong integer hash of a coordinate pair, used to give every cell an
/// independent seed with no visible correlation between neighbours.
pub open spec fn sp_hash2(a: i32, b: i32) -> u64 {
    let x1 = sp_hash2_round1(a, b);
    let x2 = vstd::wrapping::u128_specs::wrapping_mul(x1 ^ (x1 >> 27), 0x94D0_49BB_1331_11EBu128);
    (x2 ^ (x2 >> 31)) as u64
}

/// Avalanche hash of two signed coordinates to one 64-bit value.
pub fn hash2(a: i32, b: i32) -> (r: u64)
    ensures
        r == sp_hash2(a, b),
{
    let mut x: u128 = ((a as i64) as u128) ^ ((((b as i64) as i128) << 1) as u128)
        ^ 0x9E37_79B9_7F4A_7C15u128;
    x = (x ^ (x >> 30)).wrapping_mul(0xBF58_476D_1CE4_E5B9u128);
    x = (x ^ (x >> 27)).wrapping_mul(0x94D0_49BB_1331_11EBu128);
    (x ^ (x >> 31)) as u64
}

/// Xorshift pseudo-random stream.  Deterministic: the sequence of draws
/// is a pure function of the seed.
pub struct XorShift64(u64);

impl XorShift64 {
    /// The current stream state, for relating draws to the seed in specs.
    pub closed spec fn state(&self) -> u64 {
        self.0
    }

    /// Seeds the stream; the low bit is forced so the state is never zero.
    pub fn new(seed: u64) -> (r: Self)
        ensures
            r.state() == seed | 1,
    {
        XorShift64(seed | 1)
    }

    /// Advances the stream and returns the new state as the draw.
    pub fn next(&mut self) -> (r: u64)
        ensures
            r == sp_next(old(self).state()),
            final(self).state() == r,
    {
        let mut x = self.0;
        x ^= x << 13;
        x ^= x >> 7;
        x ^= x << 17;
        self.0 = x;
        x
    }

    /// A draw reduced to the range `0 .. m`.
    pub fn next_below(&mut self, m: u64) -> (r: u64)
        requires
            m > 0,
        ensures
            r == sp_next(old(self).state()) % m,
            final(self).state() == sp_next(old(self).state()),
            r < m,
    {
        let x = self.next();
        x % m
    }
}

} // verus!

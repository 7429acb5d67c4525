//! Fixed-point geometry primitives.
//!
//! World lengths are carried as signed 64-bit counts of milli-units
//! (1000 ticks = one world unit); scale factors as thousandths.

use vstd::prelude::*;
use vstd::arithmetic::div_mod::{
    lemma_fundamental_div_mod, lemma_fundamental_div_mod_converse,
};

verus! {

/// A fixed-point vector: each component is in milli-units or thousandths,
/// depending on context.
#[derive(Clone, Copy, PartialEq, Eq, Structural, Debug)]
pub struct Vec3i {
    pub x: i64,
    pub y: i64,
    pub z: i64,
}

impl Vec3i {
    pub fn new(x: i64, y: i64, z: i64) -> (r: Vec3i)
        ensures
            r == (Vec3i { x, y, z }),
    {
        Vec3i { x, y, z }
    }
}

/// Clamps `v` into the inclusive range `lo ..= hi`.
pub fn clamp_i64(v: i64, lo: i64, hi: i64) -> (r: i64)
    requires
        lo <= hi,
    ensures
        r == sp_clamp(v as int, lo as int, hi as int),
{
    if v < lo {
        lo
    } else if v > hi {
        hi
    } else {
        v
    }
}

pub open spec fn sp_clamp(v: int, lo: int, hi: int) -> int {
    if v < lo {
        lo
    } else if v > hi {
        hi
    } else {
        v
    }
}

/// Floor division by a positive divisor: the unique `q` with
/// `d * q <= x < d * (q + 1)`.
pub fn floor_div(x: i64, d: i64) -> (q: i64)
    requires
        d > 0,
        x > i64::MIN,
    ensures
        d * q <= x < d * (q + 1),
        q == (x as int) / (d as int),
{
    let du = d as u64;
    if x >= 0 {
        let xu = x as u64;
        let qu = xu / du;
        proof {
            lemma_fundamental_div_mod(xu as int, du as int);
            assert(qu <= xu && du * qu <= xu < du * (qu + 1)) by (nonlinear_arith)
                requires
                    qu == xu as int / du as int,
                    du >= 1,
                    xu >= 0,
                    xu as int == du * (xu as int / du as int) + xu as int % (du as int),
                    0 <= xu as int % (du as int) < du,
            ;
        }
        qu as i64
    } else {
        let m = (-x) as u64;
        let qc = (m - 1) / du + 1;
        proof {
            lemma_fundamental_div_mod((m - 1) as int, du as int);
            assert(qc <= m) by (nonlinear_arith)
                requires
                    qc == (m - 1) as int / (du as int) + 1,
                    du >= 1,
                    m >= 1,
            ;
            let q = -(qc as int);
            let r = x - d * q;
            assert(0 <= r < d) by (nonlinear_arith)
                requires
                    q == -(qc as int),
                    r == x - d * q,
                    x == -(m as int),
                    d == du as int,
                    m >= 1,
                    du >= 1,
                    (m - 1) as int == du * ((m - 1) as int / (du as int)) + (m - 1) as int
                        % (du as int),
                    0 <= (m - 1) as int % (du as int) < du,
                    qc == (m - 1) as int / (du as int) + 1,
            ;
            lemma_fundamental_div_mod_converse(x as int, d as int, q, r);
            assert(d * q <= x < d * (q + 1)) by (nonlinear_arith)
                requires
                    x == d * q + r,
                    0 <= r < d,
            ;
        }
        -(qc as i64)
    }
}

/// The integer square root as a mathematical function: the unique `r`
/// with `r * r <= n < (r + 1) * (r + 1)`.
pub open spec fn sp_isqrt(n: nat) -> nat {
    choose|r: nat| #[trigger] (r * r) <= n < (r + 1) * (r + 1)
}

/// The characterization pins the square root down, so any value
/// satisfying it equals `sp_isqrt`.
pub proof fn lemma_isqrt_unique(n: nat, r: nat)
    requires
        r * r <= n < (r + 1) * (r + 1),
    ensures
        r == sp_isqrt(n),
{
    assert(exists|q: nat| #[trigger] (q * q) <= n < (q + 1) * (q + 1)) by {
        assert(r * r <= n < (r + 1) * (r + 1));
    }
    let q = sp_isqrt(n);
    assert(q * q <= n < (q + 1) * (q + 1));
    assert(q == r) by (nonlinear_arith)
        requires
            q * q <= n < (q + 1) * (q + 1),
            r * r <= n < (r + 1) * (r + 1),
    ;
}

/// Integer square root: the unique `r` with `r * r <= n < (r + 1) * (r + 1)`.
pub fn isqrt(n: u64) -> (r: u64)
    ensures
        r * r <= n < (r + 1) * (r + 1),
        r == sp_isqrt(n as nat),
{
    let mut lo: u64 = 0;
    let mut hi: u64 = 0x1_0000_0000;
    proof {
        assert((0x1_0000_0000u64 as int) * (0x1_0000_0000u64 as int) > u64::MAX as int);
    }
    while lo + 1 < hi
        invariant
            lo < hi <= 0x1_0000_0000,
            (lo as int) * (lo as int) <= n as int,
            (hi as int) * (hi as int) > n as int,
        decreases hi - lo,
    {
        let mid = lo + (hi - lo) / 2;
        proof {
            assert((mid as int) * (mid as int) <= u128::MAX as int) by (nonlinear_arith)
                requires
                    mid <= 0x1_0000_0000u64,
            ;
        }
        let sq: u128 = (mid as u128) * (mid as u128);
        if sq <= n as u128 {
            lo = mid;
        } else {
            hi = mid;
        }
    }
    proof {
        assert((lo as int + 1) * (lo as int + 1) > n as int);
        lemma_isqrt_unique(n as nat, lo as nat);
    }
    lo
}

} // verus!

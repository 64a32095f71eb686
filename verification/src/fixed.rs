//! Fixed-point scalars.
//!
//! Every length, speed, duration and spell stat in the simulation is a
//! signed count of `1/FX_ONE` world units held in an `i64`.  All constants
//! of the game rules are exact in this representation, so simulation steps
//! are exact integer arithmetic: no rounding beyond the truncating
//! division that the contracts below state explicitly.

use vstd::prelude::*;

verus! {

/// Number of fixed-point quanta in one world unit.
pub const FX_ONE: i64 = 10_000;

/// Fixed simulation ticks per second.
pub const TICKRATE: i64 = 100;

/// Length of one tick in fixed-point seconds: `FX_ONE / TICKRATE`.
pub const DT: i64 = 100;

/// Bound on every stored coordinate, velocity component, half-extent and
/// probe offset.  Keeping them within this bound keeps all per-tick
/// arithmetic comfortably inside `i64`.
pub const GEOM_LIMIT: i64 = 0x8000_0000;

/// Division truncating toward zero, by a positive divisor.
pub open spec fn div_trunc(a: int, d: int) -> int {
    if a >= 0 {
        a / d
    } else {
        -((-a) / d)
    }
}

/// Product of two fixed-point values, truncated toward zero.
pub open spec fn fx_mul_spec(a: int, b: int) -> int {
    div_trunc(a * b, FX_ONE as int)
}

/// Addition saturating at `i64::MAX` (used for the non-negative spell stats).
pub open spec fn sat_add_spec(a: int, b: int) -> int {
    if a + b > i64::MAX {
        i64::MAX as int
    } else {
        a + b
    }
}

/// Doubling saturating at `i64::MAX`.
pub open spec fn sat_double_spec(a: int) -> int {
    if 2 * a > i64::MAX {
        i64::MAX as int
    } else {
        2 * a
    }
}

/// Fixed-point product of two non-negative values, saturating at `i64::MAX`.
pub open spec fn sat_fx_mul_spec(a: int, b: int) -> int {
    if a * b / (FX_ONE as int) > i64::MAX {
        i64::MAX as int
    } else {
        a * b / (FX_ONE as int)
    }
}

/// Largest `r` with `r * r <= n`.
pub open spec fn sqrt_floor(n: nat) -> nat
    decreases n,
{
    if n == 0 {
        0
    } else {
        let s = sqrt_floor((n - 1) as nat);
        if (s + 1) * (s + 1) <= n {
            s + 1
        } else {
            s
        }
    }
}

/// `sqrt_floor` really is the floor of the square root.
pub proof fn lemma_sqrt_floor_bounds(n: nat)
    ensures
        sqrt_floor(n) * sqrt_floor(n) <= n,
        (sqrt_floor(n) as int) * (sqrt_floor(n) as int) <= n as int,
        n < ((sqrt_floor(n) as int) + 1) * ((sqrt_floor(n) as int) + 1),
    decreases n,
{
    if n > 0 {
        lemma_sqrt_floor_bounds((n - 1) as nat);
        let s = sqrt_floor((n - 1) as nat);
        assert(s * s <= n - 1);
        assert(n - 1 < (s + 1) * (s + 1));
        if (s + 1) * (s + 1) <= n {
            assert(sqrt_floor(n) == s + 1);
            assert(n == (s + 1) * (s + 1));
            assert((s + 1) * (s + 1) < (s + 2) * (s + 2)) by (nonlinear_arith);
            assert(sqrt_floor(n) + 1 == s + 2);
            assert(n < (s + 2) * (s + 2));
        } else {
            assert(sqrt_floor(n) == s);
        }
    } else {
        assert(n == 0);
        assert(sqrt_floor(0) == 0);
    }
}

/// The floor of the square root is the only value between `r*r` and `(r+1)*(r+1)`.
pub proof fn lemma_sqrt_floor_unique(n: nat, r: nat)
    requires
        r * r <= n,
        n < (r + 1) * (r + 1),
    ensures
        r == sqrt_floor(n),
{
    lemma_sqrt_floor_bounds(n);
    let s = sqrt_floor(n);
    if r < s {
        assert(s * s <= n);
        assert((r + 1) * (r + 1) <= s * s) by (nonlinear_arith)
            requires
                r + 1 <= s,
        ;
    } else if s < r {
        assert(r * r <= n);
        assert((s + 1) * (s + 1) <= r * r) by (nonlinear_arith)
            requires
                s + 1 <= r,
        ;
    }
}

/// Truncating division of `a` by the positive divisor `d`.
pub fn div_trunc_by(a: i64, d: u64) -> (r: i64)
    requires
        d > 0,
        a > i64::MIN,
    ensures
        r == div_trunc(a as int, d as int),
{
    if a >= 0 {
        ((a as u64) / d) as i64
    } else {
        let m: u64 = ((-a) as u64) / d;
        -(m as i64)
    }
}

/// Fixed-point product, truncated toward zero.
pub fn fx_mul(a: i64, b: i64) -> (r: i64)
    requires
        -0x4000_0000_0000_0000 <= a * b <= 0x4000_0000_0000_0000,
    ensures
        r == fx_mul_spec(a as int, b as int),
{
    let p: i64 = a * b;
    div_trunc_by(p, FX_ONE as u64)
}

/// Addition of non-negative values, saturating at `i64::MAX`.
pub fn sat_add(a: i64, b: i64) -> (r: i64)
    requires
        a >= 0,
        b >= 0,
    ensures
        r == sat_add_spec(a as int, b as int),
        r >= 0,
{
    if a > i64::MAX - b {
        i64::MAX
    } else {
        a + b
    }
}

/// Doubling of a non-negative value, saturating at `i64::MAX`.
pub fn sat_double(a: i64) -> (r: i64)
    requires
        a >= 0,
    ensures
        r == sat_double_spec(a as int),
        r >= 0,
{
    if a > i64::MAX / 2 {
        i64::MAX
    } else {
        2 * a
    }
}

/// Fixed-point product of non-negative values, saturating at `i64::MAX`.
pub fn sat_fx_mul(a: i64, b: i64) -> (r: i64)
    requires
        a >= 0,
        b >= 0,
    ensures
        r == sat_fx_mul_spec(a as int, b as int),
        r >= 0,
{
    proof {
        assert((a as u128) * (b as u128) <= 0x4000_0000_0000_0000_0000_0000_0000_0000u128)
            by (nonlinear_arith)
            requires
                0 <= a as u128 <= 0x8000_0000_0000_0000u128,
                0 <= b as u128 <= 0x8000_0000_0000_0000u128,
        ;
    }
    let p: u128 = (a as u128) * (b as u128) / (FX_ONE as u128);
    if p > i64::MAX as u128 {
        i64::MAX
    } else {
        p as i64
    }
}

/// Floor of the square root of a 128-bit value.
pub fn isqrt(n: u128) -> (r: u64)
    ensures
        r == sqrt_floor(n as nat),
{
    let mut lo: u64 = 0;
    let mut hi: u64 = 0xFFFF_FFFF_FFFF_FFFF;
    proof {
        assert((hi as nat + 1) * (hi as nat + 1) > n as nat) by (nonlinear_arith)
            requires
                hi == 0xFFFF_FFFF_FFFF_FFFFu64,
                n <= u128::MAX,
        ;
    }
    while lo < hi
        invariant
            lo <= hi,
            lo * lo <= n as nat,
            (n as nat) < (hi as nat + 1) * (hi as nat + 1),
        decreases hi - lo,
    {
        let mid: u64 = hi - (hi - lo) / 2;
        proof {
            assert((mid as u128) * (mid as u128) <= 0xFFFF_FFFF_FFFF_FFFFu128
                * 0xFFFF_FFFF_FFFF_FFFFu128) by (nonlinear_arith)
                requires
                    0 <= (mid as u128) <= 0xFFFF_FFFF_FFFF_FFFFu128,
            ;
        }
        let sq: u128 = (mid as u128) * (mid as u128);
        if sq <= n {
            lo = mid;
        } else {
            hi = mid - 1;
        }
    }
    proof {
        lemma_sqrt_floor_unique(n as nat, lo as nat);
    }
    lo
}

/// Clamp a value to `[-lim, lim]`.
pub fn clamp_mag(a: i64, lim: i64) -> (r: i64)
    requires
        lim >= 0,
    ensures
        r == clamp_mag_spec(a as int, lim as int),
{
    if a > lim {
        lim
    } else if a < -lim {
        -lim
    } else {
        a
    }
}

/// Value of [`clamp_mag`].
pub open spec fn clamp_mag_spec(a: int, lim: int) -> int {
    if a > lim {
        lim
    } else if a < -lim {
        -lim
    } else {
        a
    }
}

/// Absolute difference, as spec.
pub open spec fn iabs(a: int) -> int {
    if a >= 0 {
        a
    } else {
        -a
    }
}

} // verus!

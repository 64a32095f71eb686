//! 2D fixed-point vectors.
//!
//! A freely copied value type over two fixed-point scalars; the building
//! block for positions, velocities, half-extents and probe offsets.

use vstd::prelude::*;
use crate::fixed::{
    div_trunc, fx_mul, fx_mul_spec, iabs, isqrt, lemma_sqrt_floor_bounds, sqrt_floor, FX_ONE,
    GEOM_LIMIT,
};

verus! {

/// Bound on the components a length can be taken of.
pub const LEN_LIMIT: i64 = 0x800_0000_0000_0000;

/// Bound on the components a vector can be normalized from.
pub const NORM_LIMIT: i64 = 0x8000_0000_0000;

#[derive(Clone, Copy, Debug, PartialEq, Eq, Structural)]
pub struct Vector {
    pub x: i64,
    pub y: i64,
}

/// Both components within `[-b, b]`.
pub open spec fn vec_bounded(v: Vector, b: int) -> bool {
    -b <= v.x <= b && -b <= v.y <= b
}

/// Squared length, as unbounded integer (in squared quanta).
pub open spec fn len_sq(v: Vector) -> int {
    v.x * v.x + v.y * v.y
}

/// Fixed-point length: the floor of the square root of the squared length.
pub open spec fn len_spec(v: Vector) -> int {
    sqrt_floor(len_sq(v) as nat) as int
}

/// Value of [`Vector::normalized`]: `None` for the zero vector, else the
/// vector scaled to length one (`FX_ONE` quanta), each component truncated
/// toward zero.
pub open spec fn normalized_spec(v: Vector) -> Option<Vector> {
    if v.x == 0 && v.y == 0 {
        Option::None
    } else {
        Option::Some(
            Vector {
                x: div_trunc(v.x * FX_ONE, len_spec(v)) as i64,
                y: div_trunc(v.y * FX_ONE, len_spec(v)) as i64,
            },
        )
    }
}

impl Vector {
    pub fn new(x: i64, y: i64) -> (r: Vector)
        ensures
            r == (Vector { x, y }),
    {
        Vector { x, y }
    }

    /// Componentwise sum.
    pub fn add(self, other: Vector) -> (r: Vector)
        requires
            i64::MIN <= self.x + other.x <= i64::MAX,
            i64::MIN <= self.y + other.y <= i64::MAX,
        ensures
            r.x == self.x + other.x,
            r.y == self.y + other.y,
    {
        Vector { x: self.x + other.x, y: self.y + other.y }
    }

    /// Componentwise difference.
    pub fn sub(self, other: Vector) -> (r: Vector)
        requires
            i64::MIN <= self.x - other.x <= i64::MAX,
            i64::MIN <= self.y - other.y <= i64::MAX,
        ensures
            r.x == self.x - other.x,
            r.y == self.y - other.y,
    {
        Vector { x: self.x - other.x, y: self.y - other.y }
    }

    /// Componentwise fixed-point product.
    pub fn mul(self, other: Vector) -> (r: Vector)
        requires
            -0x4000_0000_0000_0000 <= self.x * other.x <= 0x4000_0000_0000_0000,
            -0x4000_0000_0000_0000 <= self.y * other.y <= 0x4000_0000_0000_0000,
        ensures
            r.x == fx_mul_spec(self.x as int, other.x as int),
            r.y == fx_mul_spec(self.y as int, other.y as int),
    {
        Vector { x: fx_mul(self.x, other.x), y: fx_mul(self.y, other.y) }
    }

    /// Both components scaled by the fixed-point factor `k`.
    pub fn scale(self, k: i64) -> (r: Vector)
        requires
            -0x4000_0000_0000_0000 <= self.x * k <= 0x4000_0000_0000_0000,
            -0x4000_0000_0000_0000 <= self.y * k <= 0x4000_0000_0000_0000,
        ensures
            r.x == fx_mul_spec(self.x as int, k as int),
            r.y == fx_mul_spec(self.y as int, k as int),
    {
        Vector { x: fx_mul(self.x, k), y: fx_mul(self.y, k) }
    }

    /// Fixed-point dot product.
    pub fn dot(self, other: Vector) -> (r: i64)
        requires
            vec_bounded(self, GEOM_LIMIT as int),
            vec_bounded(other, GEOM_LIMIT as int),
        ensures
            r == div_trunc(self.x * other.x + self.y * other.y, FX_ONE as int),
    {
        proof {
            assert(self.x * other.x <= 0x8000_0000i64 * 0x8000_0000i64
                && self.x * other.x >= -(0x8000_0000i64 * 0x8000_0000i64)
                && self.y * other.y <= 0x8000_0000i64 * 0x8000_0000i64
                && self.y * other.y >= -(0x8000_0000i64 * 0x8000_0000i64)) by (nonlinear_arith)
                requires
                    -0x8000_0000 <= self.x <= 0x8000_0000,
                    -0x8000_0000 <= self.y <= 0x8000_0000,
                    -0x8000_0000 <= other.x <= 0x8000_0000,
                    -0x8000_0000 <= other.y <= 0x8000_0000,
            ;
        }
        let s: i128 = (self.x as i128) * (other.x as i128) + (self.y as i128) * (other.y as i128);
        if s >= 0 {
            let q: u128 = (s as u128) / (FX_ONE as u128);
            assert(q <= 0x1_0000_0000_0000_0000u128 / 10_000);
            (q as u64) as i64
        } else {
            let m: u128 = ((-s) as u128) / (FX_ONE as u128);
            assert(m <= 0x1_0000_0000_0000_0000u128 / 10_000);
            -((m as u64) as i64)
        }
    }

    /// Fixed-point length (floor of the Euclidean length).
    pub fn length(self) -> (r: i64)
        requires
            vec_bounded(self, LEN_LIMIT as int),
        ensures
            r == len_spec(self),
            0 <= r <= 0x1000_0000_0000_0000,
            r == 0 <==> self.x == 0 && self.y == 0,
    {
        let ax: u64 = if self.x < 0 {
            (-self.x) as u64
        } else {
            self.x as u64
        };
        let ay: u64 = if self.y < 0 {
            (-self.y) as u64
        } else {
            self.y as u64
        };
        proof {
            assert((ax as int) * (ax as int) == self.x * self.x && (ay as int) * (ay as int)
                == self.y * self.y && self.x * self.x + self.y * self.y <= 2 * (
            0x800_0000_0000_0000i64 * 0x800_0000_0000_0000i64) && self.x * self.x >= 0 && self.y
                * self.y >= 0) by (nonlinear_arith)
                requires
                    ax == iabs(self.x as int),
                    ay == iabs(self.y as int),
                    -0x800_0000_0000_0000 <= self.x <= 0x800_0000_0000_0000,
                    -0x800_0000_0000_0000 <= self.y <= 0x800_0000_0000_0000,
            ;
        }
        let sq: u128 = (ax as u128) * (ax as u128) + (ay as u128) * (ay as u128);
        let r = isqrt(sq);
        proof {
            crate::fixed::lemma_sqrt_floor_bounds(sq as nat);
            assert(r <= 0x1000_0000_0000_0000u64) by (nonlinear_arith)
                requires
                    (r as int) * (r as int) <= sq as int,
                    sq as int <= 2 * (0x800_0000_0000_0000i64 * 0x800_0000_0000_0000i64),
                    r >= 0,
            ;
        }
        proof {
            if self.x == 0 && self.y == 0 {
                assert(sq == 0) by (nonlinear_arith)
                    requires
                        ax == 0,
                        ay == 0,
                        sq == ax * ax + ay * ay,
                ;
                assert(sqrt_floor(0) == 0);
            }
            if r == 0 {
                lemma_sqrt_floor_bounds(sq as nat);
                assert(sqrt_floor(sq as nat) == 0);
                assert(((sqrt_floor(sq as nat) as int) + 1) * ((sqrt_floor(sq as nat) as int) + 1)
                    == 1) by (nonlinear_arith)
                    requires
                        sqrt_floor(sq as nat) == 0,
                ;
                assert(sq == 0);
                assert(self.x * self.x >= 0 && self.y * self.y >= 0
                    && (self.x * self.x == 0 ==> self.x == 0) && (self.y * self.y == 0
                    ==> self.y == 0)) by (nonlinear_arith);
            }
        }
        r as i64
    }

    /// `None` for the zero vector; otherwise the direction of `self` with
    /// length one.  Components of the result never exceed `FX_ONE` in
    /// magnitude.
    pub fn normalized(self) -> (r: Option<Vector>)
        requires
            vec_bounded(self, NORM_LIMIT as int),
        ensures
            r == normalized_spec(self),
            r matches Option::Some(d) ==> vec_bounded(d, FX_ONE as int),
    {
        let l = self.length();
        if l == 0 {
            Option::None
        } else {
            proof {
                lemma_component_le_len(self);
                lemma_div_trunc_mag(self.x * FX_ONE, len_spec(self));
                lemma_div_trunc_mag(self.y * FX_ONE, len_spec(self));
                let l0 = len_spec(self);
                assert(iabs(div_trunc(self.x * FX_ONE, l0)) <= FX_ONE
                    && iabs(div_trunc(self.y * FX_ONE, l0)) <= FX_ONE) by (nonlinear_arith)
                    requires
                        l0 > 0,
                        iabs(div_trunc(self.x * FX_ONE, l0)) * l0 <= iabs(self.x * FX_ONE),
                        iabs(div_trunc(self.y * FX_ONE, l0)) * l0 <= iabs(self.y * FX_ONE),
                        iabs(self.x * FX_ONE) == iabs(self.x as int) * FX_ONE,
                        iabs(self.y * FX_ONE) == iabs(self.y as int) * FX_ONE,
                        iabs(self.x as int) <= l0,
                        iabs(self.y as int) <= l0,
                ;
            }
            let nx = crate::fixed::div_trunc_by(self.x * FX_ONE, l as u64);
            let ny = crate::fixed::div_trunc_by(self.y * FX_ONE, l as u64);
            Option::Some(Vector { x: nx, y: ny })
        }
    }
}

/// No component of a vector exceeds the vector's length in magnitude.
pub proof fn lemma_component_le_len(v: Vector)
    ensures
        iabs(v.x as int) <= len_spec(v),
        iabs(v.y as int) <= len_spec(v),
{
    lemma_sqrt_floor_bounds(len_sq(v) as nat);
    let l = len_spec(v);
    assert(iabs(v.x as int) <= l && iabs(v.y as int) <= l) by (nonlinear_arith)
        requires
            l >= 0,
            len_sq(v) < (l + 1) * (l + 1),
            len_sq(v) == v.x * v.x + v.y * v.y,
    ;
}

/// `|a / d| <= |a| / d` scaled: truncating division never grows magnitude
/// past the exact quotient bound `m` when `|a| <= m * d`.
pub proof fn lemma_div_trunc_mag(a: int, d: int)
    requires
        d > 0,
    ensures
        iabs(div_trunc(a, d)) * d <= iabs(a),
{
    if a >= 0 {
        assert((a / d) * d <= a && a / d >= 0) by (nonlinear_arith)
            requires
                a >= 0,
                d > 0,
        ;
    } else {
        assert(((-a) / d) * d <= -a && (-a) / d >= 0) by (nonlinear_arith)
            requires
                -a >= 0,
                d > 0,
        ;
    }
}

} // verus!

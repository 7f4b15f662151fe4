//! Integer vector and scalar mathematics: 3-vectors and a floor square root.

use vstd::prelude::*;
use vstd::arithmetic::div_mod::{
    lemma_div_is_ordered, lemma_fundamental_div_mod,
};
use vstd::arithmetic::mul::lemma_mul_inequality;

verus! {

/// A three-component vector of fixed-point coordinates.
#[derive(Copy, Clone, Debug, PartialEq, Eq, Structural)]
pub struct Vec3 {
    pub x: i64,
    pub y: i64,
    pub z: i64,
}

impl Vec3 {
    /// The zero vector.
    pub fn zero() -> (r: Vec3)
        ensures
            r.x == 0 && r.y == 0 && r.z == 0,
    {
        Vec3 { x: 0, y: 0, z: 0 }
    }

    pub fn new(x: i64, y: i64, z: i64) -> (r: Vec3)
        ensures
            r.x == x && r.y == y && r.z == z,
    {
        Vec3 { x, y, z }
    }
}

/// The floor of the square root of a non-negative integer.
pub open spec fn sqrt_floor(n: int) -> int {
    choose|r: int| r >= 0 && #[trigger] (r * r) <= n && (r + 1) * (r + 1) > n
}

/// Any two floor square roots of the same number agree.
proof fn lemma_sqrt_floor_unique(a: int, b: int, n: int)
    by (nonlinear_arith)
    requires
        a >= 0,
        b >= 0,
        a * a <= n,
        (a + 1) * (a + 1) > n,
        b * b <= n,
        (b + 1) * (b + 1) > n,
    ensures
        a == b,
{
}

/// `sqrt_floor` deserves its name as soon as one witness exists.
proof fn lemma_sqrt_floor_is(r: int, n: int)
    requires
        r >= 0,
        r * r <= n,
        (r + 1) * (r + 1) > n,
    ensures
        sqrt_floor(n) == r,
{
    assert(exists|s: int| s >= 0 && #[trigger] (s * s) <= n && (s + 1) * (s + 1) > n) by {
        assert(r >= 0 && r * r <= n && (r + 1) * (r + 1) > n);
    }
    let s = sqrt_floor(n);
    lemma_sqrt_floor_unique(r, s, n);
}

/// For positive `m`, `m <= n / m` exactly when `m * m <= n`.
proof fn lemma_square_vs_div(m: int, n: int)
    requires
        m >= 1,
        n >= 0,
    ensures
        m * m <= n <==> m <= n / m,
{
    if m * m <= n {
        lemma_div_is_ordered(m * m, n, m);
        assert((m * m) / m == m) by (nonlinear_arith)
            requires
                m >= 1,
        ;
    }
    if m <= n / m {
        lemma_fundamental_div_mod(n, m);
        lemma_mul_inequality(m, n / m, m);
        assert((n / m) * m <= n) by {
            lemma_fundamental_div_mod(n, m);
            assert(n == m * (n / m) + n % m);
            assert(n % m >= 0);
            assert(m * (n / m) == (n / m) * m) by (nonlinear_arith);
        }
    }
}

/// Floor square root of a 128-bit unsigned integer, by binary search.
pub fn isqrt(n: u128) -> (r: u128)
    ensures
        r * r <= n,
        (r + 1) * (r + 1) > n,
        r == sqrt_floor(n as int),
{
    let mut lo: u128 = 0;
    let mut hi: u128 = 18_446_744_073_709_551_615;
    if n < hi {
        hi = n;
    }
    assert((hi + 1) * (hi + 1) > n) by (nonlinear_arith)
        requires
            hi <= 18_446_744_073_709_551_615 && (n <= hi || hi == 18_446_744_073_709_551_615)
                && n <= u128::MAX,
    ;
    while lo < hi
        invariant
            0 <= lo <= hi <= 18_446_744_073_709_551_615,
            lo * lo <= n,
            (hi + 1) * (hi + 1) > n,
        decreases hi - lo,
    {
        let mid = lo + (hi - lo + 1) / 2;
        assert(lo < mid <= hi);
        if mid <= n / mid {
            proof {
                lemma_square_vs_div(mid as int, n as int);
            }
            lo = mid;
        } else {
            proof {
                lemma_square_vs_div(mid as int, n as int);
            }
            hi = mid - 1;
        }
    }
    proof {
        lemma_sqrt_floor_is(lo as int, n as int);
    }
    lo
}

} // verus!

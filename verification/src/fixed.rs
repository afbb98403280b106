//! Fixed-point world geometry.
//!
//! World coordinates, velocities, masses and times are carried as `i64`
//! raw units, `SCALE` raw units to one world unit, so that every
//! arithmetic step has an exact integer meaning that contracts can state.
//! Intermediate products are taken in 128-bit integers; the caps below
//! bound the values the world may hold so that no intermediate overflows.

use vstd::prelude::*;
use vstd::arithmetic::div_mod::lemma_div_is_ordered;
use vstd::arithmetic::div_mod::lemma_div_multiples_vanish;
use vstd::arithmetic::div_mod::lemma_div_pos_is_pos;
use vstd::arithmetic::mul::lemma_mul_inequality;

verus! {

/// Fixed-point scale: one world unit (or one second) is `SCALE` raw units.
pub const SCALE: i64 = 1_000_000_000;

/// Largest coordinate or velocity component the world may hold, in raw units.
pub const POS_CAP: i64 = 100_000_000_000_000;

/// Largest body mass, in raw units.
pub const MASS_CAP: i64 = 10_000_000_000_000;

/// Largest time value handled by easers and transforms, in raw units.
pub const TIME_CAP: i64 = 100_000_000_000_000;

/// Largest single step duration, in raw units (one second).
pub const DT_CAP: i64 = 1_000_000_000;

/// A point or vector of the world plane, in raw fixed-point units.
#[derive(Clone, Copy, Debug, PartialEq, Eq, Structural)]
pub struct Vec2 {
    pub x: i64,
    pub y: i64,
}

/// Whether both components lie within the world box.
pub open spec fn in_world(v: Vec2) -> bool {
    -POS_CAP <= v.x <= POS_CAP && -POS_CAP <= v.y <= POS_CAP
}

/// Mathematical square.
pub open spec fn sq(x: int) -> int {
    x * x
}

/// Squared distance between two points, in raw units squared.
pub open spec fn dist2_spec(a: Vec2, b: Vec2) -> int {
    sq(b.x - a.x) + sq(b.y - a.y)
}

/// Magnitude of an integer.
pub open spec fn abs_spec(x: int) -> int {
    if x < 0 {
        -x
    } else {
        x
    }
}

/// `a * b / d` truncated toward zero, as Rust's integer division truncates.
pub open spec fn mul_div_spec(a: int, b: int, d: int) -> int {
    let m = abs_spec(a) * abs_spec(b) / d;
    if (a < 0) != (b < 0) {
        -m
    } else {
        m
    }
}

pub proof fn lemma_sq_nonneg(x: int)
    ensures
        sq(x) >= 0,
{
    assert(x * x >= 0) by (nonlinear_arith);
}

pub proof fn lemma_sq_monotone(x: int, y: int)
    requires
        0 <= x <= y,
    ensures
        sq(x) <= sq(y),
{
    assert(x * x <= y * y) by (nonlinear_arith)
        requires
            0 <= x <= y,
    ;
}

/// A product scaled down by a divisor at least as large as one factor
/// cannot exceed the other factor.
pub proof fn lemma_mul_div_le(a: int, b: int, d: int)
    requires
        0 <= a,
        0 <= b <= d,
        1 <= d,
    ensures
        0 <= a * b / d <= a,
{
    lemma_mul_inequality(b, d, a);
    assert(a * b == b * a) by (nonlinear_arith);
    assert(a * d == d * a) by (nonlinear_arith);
    lemma_div_is_ordered(a * b, a * d, d);
    lemma_div_multiples_vanish(a, d);
    assert(a * b >= 0) by (nonlinear_arith)
        requires
            a >= 0,
            b >= 0,
    ;
    lemma_div_pos_is_pos(a * b, d);
}

/// Caps on two factors carry to their scaled product.
pub proof fn lemma_mul_div_cap(a: int, b: int, d: int, ca: int, cb: int)
    requires
        -ca <= a <= ca,
        -cb <= b <= cb,
        1 <= d,
    ensures
        0 <= abs_spec(a) * abs_spec(b) / d <= ca * cb / d,
{
    assert(abs_spec(a) * abs_spec(b) <= ca * cb) by (nonlinear_arith)
        requires
            0 <= abs_spec(a) <= ca,
            0 <= abs_spec(b) <= cb,
    ;
    lemma_div_is_ordered(abs_spec(a) * abs_spec(b), ca * cb, d);
    assert(abs_spec(a) * abs_spec(b) >= 0) by (nonlinear_arith)
        requires
            abs_spec(a) >= 0,
            abs_spec(b) >= 0,
    ;
    lemma_div_pos_is_pos(abs_spec(a) * abs_spec(b), d);
}

pub proof fn lemma_dist2_bound(a: Vec2, b: Vec2)
    requires
        in_world(a),
        in_world(b),
    ensures
        0 <= dist2_spec(a, b) <= 80_000_000_000_000_000_000_000_000_000,
{
    let dx = b.x - a.x;
    let dy = b.y - a.y;
    assert(dx * dx <= 40_000_000_000_000_000_000_000_000_000) by (nonlinear_arith)
        requires
            -200_000_000_000_000 <= dx <= 200_000_000_000_000,
    ;
    assert(dy * dy <= 40_000_000_000_000_000_000_000_000_000) by (nonlinear_arith)
        requires
            -200_000_000_000_000 <= dy <= 200_000_000_000_000,
    ;
    lemma_sq_nonneg(dx);
    lemma_sq_nonneg(dy);
}

impl Vec2 {
    /// The zero vector.
    pub fn zero() -> (r: Vec2)
        ensures
            r.x == 0 && r.y == 0,
    {
        Vec2 { x: 0, y: 0 }
    }
}

/// Both components lie within twice the world box; points computed from
/// view math may stray this far outside the world itself.
pub open spec fn near_world(v: Vec2) -> bool {
    -2 * POS_CAP <= v.x <= 2 * POS_CAP && -2 * POS_CAP <= v.y <= 2 * POS_CAP
}

/// Squared distance between two points near the world box.
pub fn dist2(a: &Vec2, b: &Vec2) -> (r: u128)
    requires
        near_world(*a),
        near_world(*b),
    ensures
        r == dist2_spec(*a, *b),
{
    let dx: i128 = (b.x as i128) - (a.x as i128);
    let dy: i128 = (b.y as i128) - (a.y as i128);
    proof {
        assert(-400_000_000_000_000 <= dx <= 400_000_000_000_000);
        assert(-400_000_000_000_000 <= dy <= 400_000_000_000_000);
        assert(dx * dx <= 160_000_000_000_000_000_000_000_000_000) by (nonlinear_arith)
            requires
                -400_000_000_000_000 <= dx <= 400_000_000_000_000,
        ;
        assert(dy * dy <= 160_000_000_000_000_000_000_000_000_000) by (nonlinear_arith)
            requires
                -400_000_000_000_000 <= dy <= 400_000_000_000_000,
        ;
        lemma_sq_nonneg(dx as int);
        lemma_sq_nonneg(dy as int);
    }
    let s: i128 = dx * dx + dy * dy;
    s as u128
}

/// The square of an `i64`, widened so it cannot overflow.
pub fn sq_u128(x: i64) -> (r: u128)
    ensures
        r == sq(x as int),
{
    let m: u128 = if x < 0 {
        (-(x as i128)) as u128
    } else {
        x as u128
    };
    proof {
        assert(m * m <= 0x8000_0000_0000_0000u128 * 0x8000_0000_0000_0000u128)
            by (nonlinear_arith)
            requires
                m <= 0x8000_0000_0000_0000u128,
        ;
        assert(m * m == sq(x as int)) by (nonlinear_arith)
            requires
                m == abs_spec(x as int),
        ;
    }
    m * m
}

/// Mathematical integer square root, defined by counting up.
pub open spec fn isqrt_spec(n: int) -> int
    decreases
            (if n >= 0 {
                n
            } else {
                0
            }),
{
    if n <= 0 {
        0
    } else {
        let p = isqrt_spec(n - 1);
        if (p + 1) * (p + 1) <= n {
            p + 1
        } else {
            p
        }
    }
}

pub proof fn lemma_isqrt_spec_char(n: int)
    requires
        n >= 0,
    ensures
        isqrt_spec(n) >= 0,
        sq(isqrt_spec(n)) <= n < sq(isqrt_spec(n) + 1),
    decreases n,
{
    if n > 0 {
        lemma_isqrt_spec_char(n - 1);
        let p = isqrt_spec(n - 1);
        if (p + 1) * (p + 1) <= n {
            assert(sq(p + 1) < sq(p + 2)) by (nonlinear_arith)
                requires
                    p >= 0,
            ;
        }
    }
}

/// Any value meeting the square-root characterization is the square
/// root.
pub proof fn lemma_isqrt_unique(n: int, r: int)
    requires
        n >= 0,
        r >= 0,
        sq(r) <= n,
        n < sq(r + 1),
    ensures
        r == isqrt_spec(n),
{
    lemma_isqrt_spec_char(n);
    let s = isqrt_spec(n);
    if r < s {
        lemma_sq_monotone(r + 1, s);
    }
    if s < r {
        lemma_sq_monotone(s + 1, r);
    }
}

/// Integer square root: the largest `r` with `r * r <= n`.
pub fn isqrt(n: u128) -> (r: u64)
    ensures
        r * r <= n < (r + 1) * (r + 1),
        r == isqrt_spec(n as int),
{
    let mut lo: u128 = 0;
    let mut hi: u128 = 1u128 << 64;
    proof {
        assert((1u128 << 64) == 0x1_0000_0000_0000_0000u128) by (bit_vector);
        assert(n < 0x1_0000_0000_0000_0000u128 * 0x1_0000_0000_0000_0000u128);
    }
    while hi - lo > 1
        invariant
            lo < hi <= 0x1_0000_0000_0000_0000u128,
            lo * lo <= n,
            n < hi * hi,
        decreases hi - lo,
    {
        let mid: u128 = lo + (hi - lo) / 2;
        proof {
            assert(mid * mid < 0x1_0000_0000_0000_0000u128 * 0x1_0000_0000_0000_0000u128)
                by (nonlinear_arith)
                requires
                    mid < 0x1_0000_0000_0000_0000u128,
            ;
        }
        if mid * mid <= n {
            lo = mid;
        } else {
            hi = mid;
        }
    }
    proof {
        assert(hi == lo + 1);
        lemma_isqrt_unique(n as int, lo as int);
    }
    lo as u64
}

/// `x` forced into `[lo, hi]`.
pub open spec fn clamp_spec(x: int, lo: int, hi: int) -> int {
    if x < lo {
        lo
    } else if x > hi {
        hi
    } else {
        x
    }
}

/// `a / d` truncated toward zero, as Rust's integer division truncates.
pub open spec fn div_trunc(a: int, d: int) -> int {
    if a < 0 {
        -((-a) / d)
    } else {
        a / d
    }
}

/// Truncating division of a wide intermediate by a positive divisor.
pub fn div_trunc_i128(a: i128, d: i128) -> (r: i128)
    requires
        1 <= d,
        -0x7fff_ffff_ffff_ffff_ffff_ffff_ffff_ffff <= a,
    ensures
        r == div_trunc(a as int, d as int),
{
    if a < 0 {
        let m: u128 = ((-a) as u128) / (d as u128);
        -(m as i128)
    } else {
        ((a as u128) / (d as u128)) as i128
    }
}

/// A wide intermediate forced into the world box.
pub fn clamp_world(x: i128) -> (r: i64)
    ensures
        r == clamp_spec(x as int, -POS_CAP as int, POS_CAP as int),
        -POS_CAP <= r <= POS_CAP,
{
    if x < -POS_CAP as i128 {
        -POS_CAP
    } else if x > POS_CAP as i128 {
        POS_CAP
    } else {
        x as i64
    }
}

/// `a * b / d` truncated toward zero, computed without overflow.
pub fn mul_div(a: i64, b: i64, d: i64) -> (r: i64)
    requires
        d >= 1,
        abs_spec(a as int) * abs_spec(b as int) / (d as int) <= 0x7fff_ffff_ffff_ffff,
    ensures
        r == mul_div_spec(a as int, b as int, d as int),
{
    let na: u128 = if a < 0 {
        (-(a as i128)) as u128
    } else {
        a as u128
    };
    let nb: u128 = if b < 0 {
        (-(b as i128)) as u128
    } else {
        b as u128
    };
    proof {
        assert(na * nb <= 0x8000_0000_0000_0000u128 * 0x8000_0000_0000_0000u128)
            by (nonlinear_arith)
            requires
                na <= 0x8000_0000_0000_0000u128,
                nb <= 0x8000_0000_0000_0000u128,
        ;
    }
    let q: u128 = (na * nb) / (d as u128);
    let m: i64 = q as i64;
    if (a < 0) != (b < 0) {
        -m
    } else {
        m
    }
}

} // verus!

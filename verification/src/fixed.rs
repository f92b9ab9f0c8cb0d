//! Fixed-point scalar and 3-vector arithmetic.
//!
//! World coordinates are carried as `i64` values holding `SCALE` units per
//! world unit.  All derived quantities (distances, unit directions, angles)
//! are computed with integer arithmetic only, so every operation here is
//! deterministic and total: there is no floating-point value and hence no
//! non-number result.  Coordinates saturate at `COORD_LIMIT`, far beyond any
//! meaningful pose.

use vstd::prelude::*;

verus! {

/// Number of fixed-point units in one world unit.
pub const SCALE: i64 = 1_000_000;

/// One half turn (pi radians) in fixed-point angle units.
pub const PI_FIX: i64 = 3_141_593;

/// Largest coordinate magnitude a stored point may hold (2^61).
/// Vector arithmetic saturates here instead of overflowing.
pub const COORD_LIMIT: i64 = 0x2000_0000_0000_0000;

/// Largest segment length accepted by the segment-list solvers.
pub const LEN_LIMIT: i64 = 1_000_000_000_000;

/// Internal unit for the cosine-halving angle iteration (2^60).
pub const ANGLE_ONE: i128 = 0x1000_0000_0000_0000;

/// Upper bound on any value the angle routine can return:
/// (1 << 20) * SCALE.
pub const ANGLE_LIMIT: i64 = 1_048_576_000_000;

// ---------------------------------------------------------------------------
// Truncating division
// ---------------------------------------------------------------------------

/// Division truncated toward zero (the machine semantics of `/`).
pub open spec fn tdiv(a: int, b: int) -> int {
    if a >= 0 {
        a / b
    } else {
        -((-a) / b)
    }
}

pub(crate) fn tdiv_i128(a: i128, b: i128) -> (q: i128)
    requires
        b > 0,
        -0x4000_0000_0000_0000_0000_0000_0000_0000i128 < a,
    ensures
        q == tdiv(a as int, b as int),
        a >= 0 ==> 0 <= q <= a,
        a < 0 ==> a <= q <= 0,
{
    if a >= 0 {
        let qa: u128 = (a as u128) / (b as u128);
        qa as i128
    } else {
        let na: i128 = -a;
        let qa: u128 = (na as u128) / (b as u128);
        -(qa as i128)
    }
}

// ---------------------------------------------------------------------------
// Integer square root
// ---------------------------------------------------------------------------

pub open spec fn is_sqrt_floor(n: int, r: int) -> bool {
    0 <= r && r * r <= n && n < (r + 1) * (r + 1)
}

/// The square root of `n`, rounded down (meaningful for `n >= 0`).
pub open spec fn sqrt_floor(n: int) -> int {
    choose|r: int| is_sqrt_floor(n, r)
}

pub proof fn lemma_sqrt_floor_of(n: int, r: int)
    requires
        is_sqrt_floor(n, r),
    ensures
        sqrt_floor(n) == r,
{
    assert(exists|x: int| is_sqrt_floor(n, x)) by {
        assert(is_sqrt_floor(n, r));
    }
    let w = choose|x: int| is_sqrt_floor(n, x);
    assert(w == r) by (nonlinear_arith)
        requires
            is_sqrt_floor(n, w),
            is_sqrt_floor(n, r),
    ;
}

/// A square bounded by `n` has its root bounded by `sqrt_floor(n)`.
pub proof fn lemma_sq_le_root(n: int, r: int, d: int)
    requires
        is_sqrt_floor(n, r),
        d * d <= n,
    ensures
        -r <= d <= r,
{
    assert(-r <= d <= r) by (nonlinear_arith)
        requires
            is_sqrt_floor(n, r),
            d * d <= n,
    ;
}

pub fn isqrt_u128(n: u128) -> (r: u128)
    ensures
        is_sqrt_floor(n as int, r as int),
        r == sqrt_floor(n as int),
        r < 0x1_0000_0000_0000_0000u128,
{
    let mut lo: u128 = 0;
    let mut hi: u128 = 0x1_0000_0000_0000_0000u128;
    proof {
        assert((hi as int) * (hi as int) > n as int) by (nonlinear_arith)
            requires
                hi == 0x1_0000_0000_0000_0000u128,
                n <= 0xffff_ffff_ffff_ffff_ffff_ffff_ffff_ffffu128,
        ;
    }
    while hi - lo > 1
        invariant
            lo < hi,
            hi <= 0x1_0000_0000_0000_0000u128,
            (lo as int) * (lo as int) <= n as int,
            (n as int) < (hi as int) * (hi as int),
        decreases hi - lo,
    {
        let mid: u128 = lo + (hi - lo) / 2;
        proof {
            assert((mid as int) * (mid as int) < 0x1_0000_0000_0000_0000_0000_0000_0000_0000)
                by (nonlinear_arith)
                requires
                    mid < 0x1_0000_0000_0000_0000u128,
            ;
        }
        if mid * mid <= n {
            lo = mid;
        } else {
            hi = mid;
        }
    }
    proof {
        lemma_sqrt_floor_of(n as int, lo as int);
    }
    lo
}

// ---------------------------------------------------------------------------
// Points and vectors
// ---------------------------------------------------------------------------

/// A 3-vector of fixed-point coordinates.
#[derive(Clone, Copy, Debug, Default, PartialEq, Eq, Structural)]
pub struct Vec3Fix {
    pub x: i64,
    pub y: i64,
    pub z: i64,
}

pub open spec fn coord_ok(c: i64) -> bool {
    -(COORD_LIMIT as int) <= c as int <= COORD_LIMIT as int
}

impl Vec3Fix {
    pub open spec fn spec_in_range(self) -> bool {
        coord_ok(self.x) && coord_ok(self.y) && coord_ok(self.z)
    }

    pub open spec fn spec_small(self, m: int) -> bool {
        -m <= self.x as int <= m && -m <= self.y as int <= m && -m <= self.z as int <= m
    }

    pub fn new(x: i64, y: i64, z: i64) -> (v: Vec3Fix)
        ensures
            v == (Vec3Fix { x, y, z }),
    {
        Vec3Fix { x, y, z }
    }

    pub fn zero() -> (v: Vec3Fix)
        ensures
            v == (Vec3Fix { x: 0, y: 0, z: 0 }),
    {
        Vec3Fix { x: 0, y: 0, z: 0 }
    }

    /// Whether every coordinate lies within the saturation range.
    pub fn in_range(&self) -> (b: bool)
        ensures
            b == self.spec_in_range(),
    {
        -COORD_LIMIT <= self.x && self.x <= COORD_LIMIT && -COORD_LIMIT <= self.y && self.y
            <= COORD_LIMIT && -COORD_LIMIT <= self.z && self.z <= COORD_LIMIT
    }
}

pub open spec fn spec_clamp(v: int) -> i64 {
    if v > COORD_LIMIT as int {
        COORD_LIMIT
    } else if v < -(COORD_LIMIT as int) {
        (-(COORD_LIMIT as int)) as i64
    } else {
        v as i64
    }
}

pub(crate) fn clamp_i128(v: i128) -> (r: i64)
    ensures
        r == spec_clamp(v as int),
        coord_ok(r),
{
    if v > COORD_LIMIT as i128 {
        COORD_LIMIT
    } else if v < -(COORD_LIMIT as i128) {
        -COORD_LIMIT
    } else {
        v as i64
    }
}

pub open spec fn norm_sq(x: int, y: int, z: int) -> int {
    x * x + y * y + z * z
}

/// The fixed-point distance between two points: the rounded-down square
/// root of the squared coordinate differences.
pub open spec fn spec_dist(a: Vec3Fix, b: Vec3Fix) -> int {
    sqrt_floor(norm_sq(b.x - a.x, b.y - a.y, b.z - a.z))
}

/// Squared norm of a difference vector, with overflow-free bounds.
fn diff_norm_sq(dx: i128, dy: i128, dz: i128) -> (n2: i128)
    requires
        -0x4000_0000_0000_0000i128 <= dx <= 0x4000_0000_0000_0000i128,
        -0x4000_0000_0000_0000i128 <= dy <= 0x4000_0000_0000_0000i128,
        -0x4000_0000_0000_0000i128 <= dz <= 0x4000_0000_0000_0000i128,
    ensures
        n2 == norm_sq(dx as int, dy as int, dz as int),
        0 <= n2 < 0x4000_0000_0000_0000_0000_0000_0000_0000i128,
{
    proof {
        assert(0 <= dx * dx <= 0x1000_0000_0000_0000_0000_0000_0000_0000 && 0 <= dy * dy
            <= 0x1000_0000_0000_0000_0000_0000_0000_0000 && 0 <= dz * dz
            <= 0x1000_0000_0000_0000_0000_0000_0000_0000) by (nonlinear_arith)
            requires
                -0x4000_0000_0000_0000i128 <= dx <= 0x4000_0000_0000_0000i128,
                -0x4000_0000_0000_0000i128 <= dy <= 0x4000_0000_0000_0000i128,
                -0x4000_0000_0000_0000i128 <= dz <= 0x4000_0000_0000_0000i128,
        ;
    }
    dx * dx + dy * dy + dz * dz
}

/// Distance between two in-range points; always fits in `i64`.
pub fn dist_fix(a: Vec3Fix, b: Vec3Fix) -> (r: i64)
    requires
        a.spec_in_range(),
        b.spec_in_range(),
    ensures
        r == spec_dist(a, b),
        0 <= r,
{
    let dx: i128 = b.x as i128 - a.x as i128;
    let dy: i128 = b.y as i128 - a.y as i128;
    let dz: i128 = b.z as i128 - a.z as i128;
    let n2: i128 = diff_norm_sq(dx, dy, dz);
    let r: u128 = isqrt_u128(n2 as u128);
    proof {
        assert((r as int) * (r as int) <= n2 as int);
        assert(r < 0x8000_0000_0000_0000u128) by (nonlinear_arith)
            requires
                (r as int) * (r as int) <= n2 as int,
                n2 < 0x4000_0000_0000_0000_0000_0000_0000_0000i128,
                r >= 0,
        ;
    }
    r as i64
}

// ---------------------------------------------------------------------------
// FABRIK placement step
// ---------------------------------------------------------------------------

/// Place a point at distance `len` from `anchor`, along the direction from
/// `anchor` to `prev`.  When the two points coincide the direction is
/// undefined and the point is left where it was.
pub open spec fn spec_place(anchor: Vec3Fix, prev: Vec3Fix, len: i64) -> Vec3Fix {
    let dx = prev.x - anchor.x;
    let dy = prev.y - anchor.y;
    let dz = prev.z - anchor.z;
    let d = sqrt_floor(norm_sq(dx, dy, dz));
    if d == 0 {
        prev
    } else {
        Vec3Fix {
            x: spec_clamp(anchor.x + tdiv(dx * len, d)),
            y: spec_clamp(anchor.y + tdiv(dy * len, d)),
            z: spec_clamp(anchor.z + tdiv(dz * len, d)),
        }
    }
}

pub fn place_toward(anchor: Vec3Fix, prev: Vec3Fix, len: i64) -> (r: Vec3Fix)
    requires
        anchor.spec_in_range(),
        prev.spec_in_range(),
        0 <= len,
    ensures
        r == spec_place(anchor, prev, len),
        r.spec_in_range(),
{
    let dx: i128 = prev.x as i128 - anchor.x as i128;
    let dy: i128 = prev.y as i128 - anchor.y as i128;
    let dz: i128 = prev.z as i128 - anchor.z as i128;
    let n2: i128 = diff_norm_sq(dx, dy, dz);
    let d: u128 = isqrt_u128(n2 as u128);
    if d == 0 {
        proof {
            assert(sqrt_floor(n2 as int) == 0);
        }
        prev
    } else {
        let di: i128 = d as i128;
        proof {
            assert(dx * (len as i128) <= 0x2000_0000_0000_0000_0000_0000_0000_0000 && dx * (
            len as i128) >= -0x2000_0000_0000_0000_0000_0000_0000_0000 && dy * (len as i128)
                <= 0x2000_0000_0000_0000_0000_0000_0000_0000 && dy * (len as i128)
                >= -0x2000_0000_0000_0000_0000_0000_0000_0000 && dz * (len as i128)
                <= 0x2000_0000_0000_0000_0000_0000_0000_0000 && dz * (len as i128)
                >= -0x2000_0000_0000_0000_0000_0000_0000_0000) by (nonlinear_arith)
                requires
                    -0x4000_0000_0000_0000i128 <= dx <= 0x4000_0000_0000_0000i128,
                    -0x4000_0000_0000_0000i128 <= dy <= 0x4000_0000_0000_0000i128,
                    -0x4000_0000_0000_0000i128 <= dz <= 0x4000_0000_0000_0000i128,
                    0 <= (len as int) < 0x8000_0000_0000_0000,
            ;
        }
        let qx: i128 = tdiv_i128(dx * (len as i128), di);
        let qy: i128 = tdiv_i128(dy * (len as i128), di);
        let qz: i128 = tdiv_i128(dz * (len as i128), di);
        Vec3Fix {
            x: clamp_i128(anchor.x as i128 + qx),
            y: clamp_i128(anchor.y as i128 + qy),
            z: clamp_i128(anchor.z as i128 + qz),
        }
    }
}

/// A coordinate shifted by an offset, saturating at the coordinate range.
pub(crate) fn clamp_add(v: i64, d: i64) -> (r: i64)
    ensures
        r == spec_clamp(v + d),
        coord_ok(r),
{
    clamp_i128(v as i128 + d as i128)
}

/// The truncated midpoint of two in-range coordinates.
pub fn mid_coord(a: i64, b: i64) -> (r: i64)
    requires
        coord_ok(a),
        coord_ok(b),
    ensures
        r as int == tdiv(a + b, 2),
        coord_ok(r),
{
    let s: i128 = a as i128 + b as i128;
    proof {
        if s >= 0 {
            vstd::arithmetic::div_mod::lemma_div_is_ordered(
                s as int,
                2 * (COORD_LIMIT as int),
                2,
            );
            vstd::arithmetic::div_mod::lemma_div_multiples_vanish(COORD_LIMIT as int, 2);
            vstd::arithmetic::div_mod::lemma_div_pos_is_pos(s as int, 2);
        } else {
            vstd::arithmetic::div_mod::lemma_div_is_ordered(
                -(s as int),
                2 * (COORD_LIMIT as int),
                2,
            );
            vstd::arithmetic::div_mod::lemma_div_multiples_vanish(COORD_LIMIT as int, 2);
            vstd::arithmetic::div_mod::lemma_div_pos_is_pos(-(s as int), 2);
        }
    }
    let q: i128 = tdiv_i128(s, 2);
    q as i64
}

// ---------------------------------------------------------------------------
// Unit directions
// ---------------------------------------------------------------------------

/// Truncated quotients of bounded numerators stay bounded:
/// if `|a| <= d` then `|a * m / d| <= m`.
pub proof fn lemma_tdiv_le(a: int, m: int, d: int)
    requires
        -d <= a <= d,
        0 <= m,
        0 < d,
    ensures
        -m <= tdiv(a * m, d) <= m,
{
    if a >= 0 {
        assert(0 <= a * m <= d * m) by (nonlinear_arith)
            requires
                0 <= a <= d,
                0 <= m,
        ;
        vstd::arithmetic::div_mod::lemma_div_is_ordered(a * m, d * m, d);
        vstd::arithmetic::div_mod::lemma_div_multiples_vanish(m, d);
        vstd::arithmetic::div_mod::lemma_div_pos_is_pos(a * m, d);
    } else {
        assert(0 <= (-a) * m <= d * m && a * m == -((-a) * m)) by (nonlinear_arith)
            requires
                0 < -a <= d,
                0 <= m,
        ;
        vstd::arithmetic::div_mod::lemma_div_is_ordered((-a) * m, d * m, d);
        vstd::arithmetic::div_mod::lemma_div_multiples_vanish(m, d);
        vstd::arithmetic::div_mod::lemma_div_pos_is_pos((-a) * m, d);
    }
}

/// The direction of a difference vector, scaled so that a unit direction
/// has norm `SCALE`.  The zero vector maps to the zero vector.
pub open spec fn spec_unit_of(dx: int, dy: int, dz: int) -> Vec3Fix {
    let d = sqrt_floor(norm_sq(dx, dy, dz));
    if d == 0 {
        Vec3Fix { x: 0, y: 0, z: 0 }
    } else {
        Vec3Fix {
            x: tdiv(dx * (SCALE as int), d) as i64,
            y: tdiv(dy * (SCALE as int), d) as i64,
            z: tdiv(dz * (SCALE as int), d) as i64,
        }
    }
}

fn unit_core(dx: i128, dy: i128, dz: i128) -> (u: Vec3Fix)
    requires
        -0x4000_0000_0000_0000i128 <= dx <= 0x4000_0000_0000_0000i128,
        -0x4000_0000_0000_0000i128 <= dy <= 0x4000_0000_0000_0000i128,
        -0x4000_0000_0000_0000i128 <= dz <= 0x4000_0000_0000_0000i128,
    ensures
        u == spec_unit_of(dx as int, dy as int, dz as int),
        u.spec_small(SCALE as int),
{
    let n2: i128 = diff_norm_sq(dx, dy, dz);
    let d: u128 = isqrt_u128(n2 as u128);
    if d == 0 {
        Vec3Fix { x: 0, y: 0, z: 0 }
    } else {
        let di: i128 = d as i128;
        proof {
            assert(dx * dx <= n2 as int && dy * dy <= n2 as int && dz * dz <= n2 as int)
                by (nonlinear_arith)
                requires
                    n2 == norm_sq(dx as int, dy as int, dz as int),
            ;
            lemma_sq_le_root(n2 as int, d as int, dx as int);
            lemma_sq_le_root(n2 as int, d as int, dy as int);
            lemma_sq_le_root(n2 as int, d as int, dz as int);
            lemma_tdiv_le(dx as int, SCALE as int, d as int);
            lemma_tdiv_le(dy as int, SCALE as int, d as int);
            lemma_tdiv_le(dz as int, SCALE as int, d as int);
        }
        let ux: i128 = tdiv_i128(dx * (SCALE as i128), di);
        let uy: i128 = tdiv_i128(dy * (SCALE as i128), di);
        let uz: i128 = tdiv_i128(dz * (SCALE as i128), di);
        Vec3Fix { x: ux as i64, y: uy as i64, z: uz as i64 }
    }
}

/// Direction from `p` toward `q`, scaled to `SCALE`.
pub open spec fn spec_unit_from(p: Vec3Fix, q: Vec3Fix) -> Vec3Fix {
    spec_unit_of(q.x - p.x, q.y - p.y, q.z - p.z)
}

pub fn unit_from(p: Vec3Fix, q: Vec3Fix) -> (u: Vec3Fix)
    requires
        p.spec_in_range(),
        q.spec_in_range(),
    ensures
        u == spec_unit_from(p, q),
        u.spec_small(SCALE as int),
{
    unit_core(q.x as i128 - p.x as i128, q.y as i128 - p.y as i128, q.z as i128 - p.z as i128)
}

/// Direction of a small raw vector (for cross-product results).
pub fn unit_of_vec(v: Vec3Fix) -> (u: Vec3Fix)
    requires
        v.spec_small(0x4000_0000_0000_0000),
    ensures
        u == spec_unit_of(v.x as int, v.y as int, v.z as int),
        u.spec_small(SCALE as int),
{
    unit_core(v.x as i128, v.y as i128, v.z as i128)
}

// ---------------------------------------------------------------------------
// Cross and dot products (on SCALE-sized vectors)
// ---------------------------------------------------------------------------

pub open spec fn spec_cross(u: Vec3Fix, v: Vec3Fix) -> Vec3Fix {
    Vec3Fix {
        x: (u.y * v.z - u.z * v.y) as i64,
        y: (u.z * v.x - u.x * v.z) as i64,
        z: (u.x * v.y - u.y * v.x) as i64,
    }
}

pub fn cross_fix(u: Vec3Fix, v: Vec3Fix) -> (w: Vec3Fix)
    requires
        u.spec_small(SCALE as int),
        v.spec_small(SCALE as int),
    ensures
        w == spec_cross(u, v),
        w.spec_small(2_000_000_000_000),
{
    proof {
        assert(-1_000_000_000_000 <= u.y * v.z <= 1_000_000_000_000 && -1_000_000_000_000 <= u.z
            * v.y <= 1_000_000_000_000 && -1_000_000_000_000 <= u.z * v.x <= 1_000_000_000_000
            && -1_000_000_000_000 <= u.x * v.z <= 1_000_000_000_000 && -1_000_000_000_000 <= u.x
            * v.y <= 1_000_000_000_000 && -1_000_000_000_000 <= u.y * v.x <= 1_000_000_000_000)
            by (nonlinear_arith)
            requires
                u.spec_small(SCALE as int),
                v.spec_small(SCALE as int),
                SCALE == 1_000_000,
        ;
    }
    Vec3Fix {
        x: u.y * v.z - u.z * v.y,
        y: u.z * v.x - u.x * v.z,
        z: u.x * v.y - u.y * v.x,
    }
}

pub open spec fn spec_dot(u: Vec3Fix, v: Vec3Fix) -> int {
    u.x * v.x + u.y * v.y + u.z * v.z
}

pub fn dot_fix(u: Vec3Fix, v: Vec3Fix) -> (r: i64)
    requires
        u.spec_small(SCALE as int),
        v.spec_small(SCALE as int),
    ensures
        r == spec_dot(u, v),
        -3_000_000_000_000 <= r <= 3_000_000_000_000,
{
    proof {
        assert(-1_000_000_000_000 <= u.x * v.x <= 1_000_000_000_000 && -1_000_000_000_000 <= u.y
            * v.y <= 1_000_000_000_000 && -1_000_000_000_000 <= u.z * v.z <= 1_000_000_000_000)
            by (nonlinear_arith)
            requires
                u.spec_small(SCALE as int),
                v.spec_small(SCALE as int),
                SCALE == 1_000_000,
        ;
    }
    u.x * v.x + u.y * v.y + u.z * v.z
}

// ---------------------------------------------------------------------------
// Scaling a unit direction to a length
// ---------------------------------------------------------------------------

/// A `SCALE`-sized direction stretched to world length `len`.
pub open spec fn spec_scale_dir(u: Vec3Fix, len: i64) -> Vec3Fix {
    Vec3Fix {
        x: tdiv(u.x * len, SCALE as int) as i64,
        y: tdiv(u.y * len, SCALE as int) as i64,
        z: tdiv(u.z * len, SCALE as int) as i64,
    }
}

pub fn scale_dir(u: Vec3Fix, len: i64) -> (r: Vec3Fix)
    requires
        u.spec_small(SCALE as int),
        0 <= len <= LEN_LIMIT,
    ensures
        r == spec_scale_dir(u, len),
        r.spec_small(len as int),
        r.spec_in_range(),
{
    proof {
        lemma_tdiv_le(u.x as int, len as int, SCALE as int);
        lemma_tdiv_le(u.y as int, len as int, SCALE as int);
        lemma_tdiv_le(u.z as int, len as int, SCALE as int);
    }
    let rx: i128 = tdiv_i128((u.x as i128) * (len as i128), SCALE as i128);
    let ry: i128 = tdiv_i128((u.y as i128) * (len as i128), SCALE as i128);
    let rz: i128 = tdiv_i128((u.z as i128) * (len as i128), SCALE as i128);
    Vec3Fix { x: rx as i64, y: ry as i64, z: rz as i64 }
}

/// The endpoint update of the sweep solvers: the moving point is
/// re-placed on the ray from `from` toward `to`, at length `len`;
/// coincident points leave `keep` unchanged (the direction is
/// undefined).
pub open spec fn spec_pulled(from: Vec3Fix, to: Vec3Fix, len: i64, keep: Vec3Fix) -> Vec3Fix {
    if from == to {
        keep
    } else {
        spec_scale_dir(spec_unit_from(from, to), len)
    }
}

// ---------------------------------------------------------------------------
// Interior angles
// ---------------------------------------------------------------------------

/// `k` applications of the half-angle rule to a scaled cosine:
/// cos(t/2) = sqrt((1 + cos t) / 2).
pub open spec fn spec_halve_cos(c: int, k: nat) -> int
    decreases k,
{
    if k == 0 {
        c
    } else {
        sqrt_floor((spec_halve_cos(c, (k - 1) as nat) + ANGLE_ONE as int) * (ANGLE_ONE as int) / 2)
    }
}

/// Recover the angle from a clamped scaled cosine: halve the angle twenty
/// times, read its sine (by then an excellent linear approximation of the
/// angle itself), and scale back up.
pub open spec fn spec_angle_from_cos(c0: int) -> i64 {
    let h = spec_halve_cos(c0, 20);
    let s = sqrt_floor((ANGLE_ONE as int) * (ANGLE_ONE as int) - h * h);
    ((s * (SCALE as int) * 1_048_576) / (ANGLE_ONE as int)) as i64
}

pub open spec fn spec_clamp_cos(x: int) -> int {
    if x > ANGLE_ONE as int {
        ANGLE_ONE as int
    } else if x < -(ANGLE_ONE as int) {
        -(ANGLE_ONE as int)
    } else {
        x
    }
}

/// The angle at vertex `b` between the rays toward `a` and toward `c`.
/// A degenerate ray (coincident points) yields the straight angle `PI_FIX`.
pub open spec fn spec_angle_points(a: Vec3Fix, b: Vec3Fix, c: Vec3Fix) -> i64 {
    let n1 = norm_sq(a.x - b.x, a.y - b.y, a.z - b.z);
    let m1 = norm_sq(c.x - b.x, c.y - b.y, c.z - b.z);
    if n1 == 0 || m1 == 0 {
        PI_FIX
    } else {
        let u = spec_unit_of(a.x - b.x, a.y - b.y, a.z - b.z);
        let v = spec_unit_of(c.x - b.x, c.y - b.y, c.z - b.z);
        spec_angle_from_cos(
            spec_clamp_cos(tdiv(spec_dot(u, v) * (ANGLE_ONE as int), (SCALE as int) * (SCALE as int))),
        )
    }
}

pub fn angle_points(a: Vec3Fix, b: Vec3Fix, c: Vec3Fix) -> (r: i64)
    requires
        a.spec_in_range(),
        b.spec_in_range(),
        c.spec_in_range(),
    ensures
        r == spec_angle_points(a, b, c),
        0 <= r <= ANGLE_LIMIT,
{
    let d1x: i128 = a.x as i128 - b.x as i128;
    let d1y: i128 = a.y as i128 - b.y as i128;
    let d1z: i128 = a.z as i128 - b.z as i128;
    let d2x: i128 = c.x as i128 - b.x as i128;
    let d2y: i128 = c.y as i128 - b.y as i128;
    let d2z: i128 = c.z as i128 - b.z as i128;
    let n1: i128 = diff_norm_sq(d1x, d1y, d1z);
    let m1: i128 = diff_norm_sq(d2x, d2y, d2z);
    if n1 == 0 || m1 == 0 {
        PI_FIX
    } else {
        let u: Vec3Fix = unit_core(d1x, d1y, d1z);
        let v: Vec3Fix = unit_core(d2x, d2y, d2z);
        let dp: i64 = dot_fix(u, v);
        proof {
            assert(-0x4000_0000_0000_0000_0000_0000_0000_0000 < (dp as int) * (ANGLE_ONE as int)
                < 0x4000_0000_0000_0000_0000_0000_0000_0000) by (nonlinear_arith)
                requires
                    -3_000_000_000_000 <= dp <= 3_000_000_000_000,
                    ANGLE_ONE == 0x1000_0000_0000_0000i128,
            ;
        }
        proof {
            assert((SCALE as int) * (SCALE as int) == 1_000_000_000_000) by (nonlinear_arith)
                requires
                    SCALE == 1_000_000i64,
            ;
        }
        let c0_raw: i128 = tdiv_i128((dp as i128) * ANGLE_ONE, 1_000_000_000_000i128);
        let c0: i128 = if c0_raw > ANGLE_ONE {
            ANGLE_ONE
        } else if c0_raw < -ANGLE_ONE {
            -ANGLE_ONE
        } else {
            c0_raw
        };
        angle_from_cos(c0)
    }
}

fn angle_from_cos(c0: i128) -> (r: i64)
    requires
        -ANGLE_ONE <= c0 <= ANGLE_ONE,
    ensures
        r == spec_angle_from_cos(c0 as int),
        0 <= r <= ANGLE_LIMIT,
{
    let mut c: i128 = c0;
    let mut k: usize = 0;
    while k < 20
        invariant
            0 <= k <= 20,
            -ANGLE_ONE <= c <= ANGLE_ONE,
            c == spec_halve_cos(c0 as int, k as nat),
        decreases 20 - k,
    {
        let num: u128 = ((c + ANGLE_ONE) as u128) * (ANGLE_ONE as u128) / 2;
        proof {
            assert((c + ANGLE_ONE) as u128 as int * (ANGLE_ONE as int) == (c + ANGLE_ONE as int) * (
            ANGLE_ONE as int) && (c + ANGLE_ONE as int) * (ANGLE_ONE as int) <= 2 * (
            ANGLE_ONE as int) * (ANGLE_ONE as int) && 0 <= (c + ANGLE_ONE as int) * (
            ANGLE_ONE as int)) by (nonlinear_arith)
                requires
                    -ANGLE_ONE <= c <= ANGLE_ONE,
            ;
        }
        let h: u128 = isqrt_u128(num);
        proof {
            assert(num as int <= (ANGLE_ONE as int) * (ANGLE_ONE as int)) by (nonlinear_arith)
                requires
                    num as int * 2 <= 2 * (ANGLE_ONE as int) * (ANGLE_ONE as int),
                    num as int * 2 <= (c + ANGLE_ONE as int) * (ANGLE_ONE as int) + 1,
                    (c + ANGLE_ONE as int) * (ANGLE_ONE as int) <= 2 * (ANGLE_ONE as int) * (
                    ANGLE_ONE as int),
            ;
            lemma_sq_le_root((ANGLE_ONE as int) * (ANGLE_ONE as int), ANGLE_ONE as int, h as int);
            assert(is_sqrt_floor((ANGLE_ONE as int) * (ANGLE_ONE as int), ANGLE_ONE as int))
                by (nonlinear_arith)
            ;
        }
        c = h as i128;
        k = k + 1;
    }
    let h: i128 = c;
    proof {
        assert(0 <= h * h && h * h <= (ANGLE_ONE as int) * (ANGLE_ONE as int) && (ANGLE_ONE as int)
            * (ANGLE_ONE as int) == 0x100_0000_0000_0000_0000_0000_0000_0000) by (nonlinear_arith)
            requires
                -ANGLE_ONE <= h <= ANGLE_ONE,
                ANGLE_ONE == 0x1000_0000_0000_0000i128,
        ;
    }
    let s: u128 = isqrt_u128((ANGLE_ONE * ANGLE_ONE - h * h) as u128);
    proof {
        lemma_sq_le_root((ANGLE_ONE as int) * (ANGLE_ONE as int), ANGLE_ONE as int, s as int);
        assert(is_sqrt_floor((ANGLE_ONE as int) * (ANGLE_ONE as int), ANGLE_ONE as int))
            by (nonlinear_arith)
        ;
        assert(s as int * (SCALE as int) * 1_048_576 <= ANGLE_ONE as int * (SCALE as int)
            * 1_048_576) by (nonlinear_arith)
            requires
                0 <= s as int <= ANGLE_ONE as int,
        ;
        vstd::arithmetic::div_mod::lemma_div_is_ordered(
            s as int * (SCALE as int) * 1_048_576,
            ANGLE_ONE as int * (SCALE as int) * 1_048_576,
            ANGLE_ONE as int,
        );
        assert(ANGLE_ONE as int * (SCALE as int) * 1_048_576 == (ANGLE_ONE as int) * (
        ANGLE_LIMIT as int)) by (nonlinear_arith)
            requires
                SCALE == 1_000_000i64,
                ANGLE_LIMIT == 1_048_576_000_000i64,
                ANGLE_ONE == 0x1000_0000_0000_0000i128,
        ;
        vstd::arithmetic::div_mod::lemma_div_multiples_vanish(
            ANGLE_LIMIT as int,
            ANGLE_ONE as int,
        );
        vstd::arithmetic::div_mod::lemma_div_pos_is_pos(
            s as int * (SCALE as int) * 1_048_576,
            ANGLE_ONE as int,
        );
    }
    let theta: u128 = (s * (SCALE as u128) * 1_048_576u128) / (ANGLE_ONE as u128);
    theta as i64
}

} // verus!

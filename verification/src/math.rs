//! Scalar, vector and rotation types used by the rigid-body store.
//!
//! Scalars are exact `i64` values. A rotation is a quaternion with integer
//! components; any non-zero quaternion represents the orientation given by
//! its direction (all positive multiples of a quaternion, and its negation,
//! stand for the same orientation), so the all-zero quaternion is the one
//! degenerate value and is rejected by every rotation setter.

use vstd::prelude::*;

verus! {

/// Fixed-point representation of the number one, used for inverse mass and
/// inverse inertia values.
pub const RECIP_UNIT: u64 = 1_000_000;

/// A vector with three integer components.
#[derive(Clone, Copy, PartialEq, Eq, Structural, Debug)]
pub struct Vec3 {
    pub x: i64,
    pub y: i64,
    pub z: i64,
}

/// A rotation, stored as a quaternion with integer components: the vector
/// part `(x, y, z)` and the scalar part `w`.
#[derive(Clone, Copy, PartialEq, Eq, Structural, Debug)]
pub struct Quat {
    pub x: i64,
    pub y: i64,
    pub z: i64,
    pub w: i64,
}

/// Does the mathematical integer `v` fit in an `i64`?
pub open spec fn in_i64(v: int) -> bool {
    i64::MIN <= v <= i64::MAX
}

pub open spec fn vec3_zero() -> Vec3 {
    Vec3 { x: 0, y: 0, z: 0 }
}

pub open spec fn is_zero_vec(v: Vec3) -> bool {
    v.x == 0 && v.y == 0 && v.z == 0
}

/// The identity orientation.
pub open spec fn quat_identity() -> Quat {
    Quat { x: 0, y: 0, z: 0, w: 1 }
}

/// The degenerate rotation value: a quaternion of zero magnitude.
pub open spec fn quat_is_zero(q: Quat) -> bool {
    q.x == 0 && q.y == 0 && q.z == 0 && q.w == 0
}

/// Componentwise vector sum. Meaningful when `vadd_fits(a, b)` holds; then
/// each cast is the identity.
pub open spec fn vadd(a: Vec3, b: Vec3) -> Vec3 {
    Vec3 { x: (a.x + b.x) as i64, y: (a.y + b.y) as i64, z: (a.z + b.z) as i64 }
}

/// Every component of `a + b` fits in an `i64`.
pub open spec fn vadd_fits(a: Vec3, b: Vec3) -> bool {
    in_i64(a.x + b.x) && in_i64(a.y + b.y) && in_i64(a.z + b.z)
}

/// Componentwise difference. Meaningful when `vsub_fits(a, b)` holds.
pub open spec fn vsub(a: Vec3, b: Vec3) -> Vec3 {
    Vec3 { x: (a.x - b.x) as i64, y: (a.y - b.y) as i64, z: (a.z - b.z) as i64 }
}

/// Every component of `a - b` fits in an `i64`.
pub open spec fn vsub_fits(a: Vec3, b: Vec3) -> bool {
    in_i64(a.x - b.x) && in_i64(a.y - b.y) && in_i64(a.z - b.z)
}

/// `v + j * k`, componentwise: the velocity reached from `v` by an impulse
/// `j` against an inverse mass (or inverse inertia) `k`. Meaningful when
/// `scaled_add_fits(v, j, k)` holds.
pub open spec fn scaled_add(v: Vec3, j: Vec3, k: i64) -> Vec3 {
    Vec3 {
        x: (v.x + j.x * k) as i64,
        y: (v.y + j.y * k) as i64,
        z: (v.z + j.z * k) as i64,
    }
}

/// Every component of `v + j * k` fits in an `i64`.
pub open spec fn scaled_add_fits(v: Vec3, j: Vec3, k: i64) -> bool {
    in_i64(v.x + j.x * k) && in_i64(v.y + j.y * k) && in_i64(v.z + j.z * k)
}

/// The cross product `a x b`. Meaningful when `cross_fits(a, b)` holds.
pub open spec fn cross(a: Vec3, b: Vec3) -> Vec3 {
    Vec3 {
        x: (a.y * b.z - a.z * b.y) as i64,
        y: (a.z * b.x - a.x * b.z) as i64,
        z: (a.x * b.y - a.y * b.x) as i64,
    }
}

/// Every product entering `a x b`, and every component of the result, fits
/// in an `i64`.
pub open spec fn cross_fits(a: Vec3, b: Vec3) -> bool {
    &&& in_i64(a.y * b.z) && in_i64(a.z * b.y) && in_i64(a.y * b.z - a.z * b.y)
    &&& in_i64(a.z * b.x) && in_i64(a.x * b.z) && in_i64(a.z * b.x - a.x * b.z)
    &&& in_i64(a.x * b.y) && in_i64(a.y * b.x) && in_i64(a.x * b.y - a.y * b.x)
}

/// Exact `a + b`; the caller guarantees that the sum fits.
pub fn add_i64(a: i64, b: i64) -> (r: i64)
    requires
        in_i64(a + b),
    ensures
        r == a + b,
{
    let s: i128 = (a as i128) + (b as i128);
    s as i64
}

/// Exact `a - b`; the caller guarantees that the difference fits.
pub fn sub_i64(a: i64, b: i64) -> (r: i64)
    requires
        in_i64(a - b),
    ensures
        r == a - b,
{
    let s: i128 = (a as i128) - (b as i128);
    s as i64
}

/// Exact `v + j * k`; the caller guarantees that the result fits.
pub fn scaled_add_i64(v: i64, j: i64, k: i64) -> (r: i64)
    requires
        in_i64(v + j * k),
    ensures
        r == v + j * k,
{
    proof {
        assert(-(0x40000000000000000000000000000000 as int) <= (j as int) * (k as int)
            <= 0x40000000000000000000000000000000 as int) by (nonlinear_arith)
            requires
                i64::MIN <= j <= i64::MAX,
                i64::MIN <= k <= i64::MAX,
        ;
    }
    let p: i128 = (j as i128) * (k as i128);
    let s: i128 = (v as i128) + p;
    s as i64
}

/// Exact `a1 * b1 - a2 * b2`, one term of a cross product; the caller
/// guarantees that both products and the difference fit.
pub fn cross_term(a1: i64, b1: i64, a2: i64, b2: i64) -> (r: i64)
    requires
        in_i64(a1 * b1),
        in_i64(a2 * b2),
        in_i64(a1 * b1 - a2 * b2),
    ensures
        r == a1 * b1 - a2 * b2,
{
    let p1: i128 = (a1 as i128) * (b1 as i128);
    let p2: i128 = (a2 as i128) * (b2 as i128);
    let d: i128 = p1 - p2;
    d as i64
}

impl Vec3 {
    pub fn new(x: i64, y: i64, z: i64) -> (v: Vec3)
        ensures
            v == (Vec3 { x, y, z }),
    {
        Vec3 { x, y, z }
    }

    pub fn zero() -> (v: Vec3)
        ensures
            v == vec3_zero(),
    {
        Vec3 { x: 0, y: 0, z: 0 }
    }
}

impl Quat {
    pub fn new(x: i64, y: i64, z: i64, w: i64) -> (q: Quat)
        ensures
            q == (Quat { x, y, z, w }),
    {
        Quat { x, y, z, w }
    }

    pub fn identity() -> (q: Quat)
        ensures
            q == quat_identity(),
    {
        Quat { x: 0, y: 0, z: 0, w: 1 }
    }

    /// Is this the degenerate (zero-magnitude) rotation value?
    pub fn is_zero(&self) -> (r: bool)
        ensures
            r == quat_is_zero(*self),
    {
        self.x == 0 && self.y == 0 && self.z == 0 && self.w == 0
    }
}

} // verus!

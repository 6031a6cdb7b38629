//! Three-component vectors over fixed-point scalars, with the dot product,
//! magnitude and reflection operations the renderer needs.

use vstd::prelude::*;
use crate::fixed::{SCALE, TWO_FX, VMAX};
use crate::fixed::{cap, fx_add, fx_div, fx_mul, fx_sqrt, fx_sub};
use crate::fixed::{fadd, fdiv, fmul, fsqrt, fsub};

verus! {

/// A vector of three fixed-point scalars.
#[derive(Clone, Copy, Debug, PartialEq, Eq, Structural)]
pub struct Vec3 {
    pub x: i64,
    pub y: i64,
    pub z: i64,
}

impl Vec3 {
    /// Every component lies in the stored domain.
    pub open spec fn wf(self) -> bool {
        &&& -VMAX <= self.x <= VMAX
        &&& -VMAX <= self.y <= VMAX
        &&& -VMAX <= self.z <= VMAX
    }

    pub fn new(x: i64, y: i64, z: i64) -> (v: Vec3)
        ensures
            v == (Vec3 { x, y, z }),
    {
        Vec3 { x, y, z }
    }
}

/// Componentwise sum.
pub open spec fn spec_vadd(a: Vec3, b: Vec3) -> Vec3 {
    Vec3 {
        x: fx_add(a.x as int, b.x as int) as i64,
        y: fx_add(a.y as int, b.y as int) as i64,
        z: fx_add(a.z as int, b.z as int) as i64,
    }
}

/// Componentwise difference.
pub open spec fn spec_vsub(a: Vec3, b: Vec3) -> Vec3 {
    Vec3 {
        x: fx_sub(a.x as int, b.x as int) as i64,
        y: fx_sub(a.y as int, b.y as int) as i64,
        z: fx_sub(a.z as int, b.z as int) as i64,
    }
}

/// Componentwise negation.
pub open spec fn spec_vneg(v: Vec3) -> Vec3 {
    Vec3 {
        x: cap(-(v.x as int)) as i64,
        y: cap(-(v.y as int)) as i64,
        z: cap(-(v.z as int)) as i64,
    }
}

/// The vector scaled by a fixed-point factor.
pub open spec fn spec_vscale(v: Vec3, k: int) -> Vec3 {
    Vec3 {
        x: fx_mul(v.x as int, k) as i64,
        y: fx_mul(v.y as int, k) as i64,
        z: fx_mul(v.z as int, k) as i64,
    }
}

/// The vector divided componentwise by a positive fixed-point scalar.
pub open spec fn spec_vdiv(v: Vec3, k: int) -> Vec3 {
    Vec3 {
        x: fx_div(v.x as int, k) as i64,
        y: fx_div(v.y as int, k) as i64,
        z: fx_div(v.z as int, k) as i64,
    }
}

/// The fixed-point dot product: the sum of the componentwise products,
/// scaled back down in one step.
pub open spec fn spec_dot(a: Vec3, b: Vec3) -> int {
    cap(
        ((a.x as int) * (b.x as int) + (a.y as int) * (b.y as int) + (a.z as int) * (b.z as int))
            / (SCALE as int),
    )
}

/// The fixed-point magnitude: the square root of the vector's dot product
/// with itself.
pub open spec fn spec_mag(v: Vec3) -> int {
    fx_sqrt(spec_dot(v, v))
}

/// The reflection of `v` about the axis `n`: `2 * n * (n . v) - v`,
/// evaluated left to right in fixed point.
pub open spec fn spec_reflect(n: Vec3, v: Vec3) -> Vec3 {
    spec_vsub(spec_vscale(spec_vscale(n, TWO_FX as int), spec_dot(n, v)), v)
}

pub fn vadd(a: Vec3, b: Vec3) -> (r: Vec3)
    ensures
        r == spec_vadd(a, b),
        r.wf(),
{
    Vec3 { x: fadd(a.x, b.x), y: fadd(a.y, b.y), z: fadd(a.z, b.z) }
}

pub fn vsub(a: Vec3, b: Vec3) -> (r: Vec3)
    ensures
        r == spec_vsub(a, b),
        r.wf(),
{
    Vec3 { x: fsub(a.x, b.x), y: fsub(a.y, b.y), z: fsub(a.z, b.z) }
}

pub fn vneg(v: Vec3) -> (r: Vec3)
    ensures
        r == spec_vneg(v),
        r.wf(),
{
    Vec3 { x: fsub(0, v.x), y: fsub(0, v.y), z: fsub(0, v.z) }
}

pub fn vscale(v: Vec3, k: i64) -> (r: Vec3)
    ensures
        r == spec_vscale(v, k as int),
        r.wf(),
{
    Vec3 { x: fmul(v.x, k), y: fmul(v.y, k), z: fmul(v.z, k) }
}

pub fn vdiv(v: Vec3, k: i64) -> (r: Vec3)
    requires
        k > 0,
    ensures
        r == spec_vdiv(v, k as int),
        r.wf(),
{
    Vec3 { x: fdiv(v.x, k), y: fdiv(v.y, k), z: fdiv(v.z, k) }
}

pub fn vdot(a: Vec3, b: Vec3) -> (r: i64)
    requires
        a.wf(),
        b.wf(),
    ensures
        r as int == spec_dot(a, b),
        -VMAX <= r <= VMAX,
{
    proof {
        assert((a.x as int) * (b.x as int) <= (VMAX as int) * (VMAX as int)
            && (a.x as int) * (b.x as int) >= -((VMAX as int) * (VMAX as int))) by (nonlinear_arith)
            requires
                -VMAX <= a.x <= VMAX,
                -VMAX <= b.x <= VMAX,
        ;
        assert((a.y as int) * (b.y as int) <= (VMAX as int) * (VMAX as int)
            && (a.y as int) * (b.y as int) >= -((VMAX as int) * (VMAX as int))) by (nonlinear_arith)
            requires
                -VMAX <= a.y <= VMAX,
                -VMAX <= b.y <= VMAX,
        ;
        assert((a.z as int) * (b.z as int) <= (VMAX as int) * (VMAX as int)
            && (a.z as int) * (b.z as int) >= -((VMAX as int) * (VMAX as int))) by (nonlinear_arith)
            requires
                -VMAX <= a.z <= VMAX,
                -VMAX <= b.z <= VMAX,
        ;
    }
    let px: i128 = (a.x as i128) * (b.x as i128);
    let py: i128 = (a.y as i128) * (b.y as i128);
    let pz: i128 = (a.z as i128) * (b.z as i128);
    crate::fixed::cap_i128(crate::fixed::div_floor_i128(px + py + pz, SCALE as i128))
}

/// A vector's dot product with itself is nonnegative.
pub proof fn lemma_dot_self_nonneg(v: Vec3)
    ensures
        spec_dot(v, v) >= 0,
{
    assert((v.x as int) * (v.x as int) >= 0 && (v.y as int) * (v.y as int) >= 0
        && (v.z as int) * (v.z as int) >= 0) by (nonlinear_arith);
    let s = (v.x as int) * (v.x as int) + (v.y as int) * (v.y as int) + (v.z as int) * (v.z as int);
    assert(s / (SCALE as int) >= 0) by (nonlinear_arith)
        requires
            s >= 0,
    ;
}

pub fn vmag(v: Vec3) -> (r: i64)
    requires
        v.wf(),
    ensures
        r as int == spec_mag(v),
        0 <= r <= VMAX,
{
    proof {
        lemma_dot_self_nonneg(v);
    }
    let d: i64 = vdot(v, v);
    fsqrt(d)
}

pub fn vreflect(n: Vec3, v: Vec3) -> (r: Vec3)
    requires
        n.wf(),
        v.wf(),
    ensures
        r == spec_reflect(n, v),
        r.wf(),
{
    let d: i64 = vdot(n, v);
    vsub(vscale(vscale(n, TWO_FX), d), v)
}

/// Rotation about the vertical axis preserves magnitude: for any vector and
/// any exact unit rotor `(c, s)` (an exact fixed-point cosine/sine pair,
/// `c*c + s*s == SCALE*SCALE`), the rotated horizontal components
/// `x*c - z*s` and `x*s + z*c` carry the same squared magnitude as `x` and
/// `z`, up to the rotor's own scale.  The executable rotation divides each
/// component by `SCALE` afterwards, which is where its only rounding lies.
/// The ring identity behind rotation: squared magnitude picks up exactly the
/// factor `c*c + s*s`.
proof fn lemma_rotation_identity(x: int, z: int, c: int, s: int)
    ensures
        (x * c - z * s) * (x * c - z * s) + (x * s + z * c) * (x * s + z * c)
            == (c * c + s * s) * (x * x + z * z),
{
    assert((x * c - z * s) * (x * c - z * s)
        == (x * c) * (x * c) - 2 * ((x * c) * (z * s)) + (z * s) * (z * s)) by (nonlinear_arith);
    assert((x * s + z * c) * (x * s + z * c)
        == (x * s) * (x * s) + 2 * ((x * s) * (z * c)) + (z * c) * (z * c)) by (nonlinear_arith);
    assert((x * c) * (z * s) == (x * s) * (z * c)) by (nonlinear_arith);
    assert((x * c) * (x * c) == (x * x) * (c * c)) by (nonlinear_arith);
    assert((z * s) * (z * s) == (z * z) * (s * s)) by (nonlinear_arith);
    assert((x * s) * (x * s) == (x * x) * (s * s)) by (nonlinear_arith);
    assert((z * c) * (z * c) == (z * z) * (c * c)) by (nonlinear_arith);
    assert((c * c + s * s) * (x * x + z * z)
        == (x * x) * (c * c) + (x * x) * (s * s) + (z * z) * (c * c) + (z * z) * (s * s))
        by (nonlinear_arith);
}

pub proof fn lemma_rotation_preserves_magnitude(v: Vec3, c: int, s: int)
    requires
        c * c + s * s == (SCALE as int) * (SCALE as int),
    ensures
        ((v.x as int) * c - (v.z as int) * s) * ((v.x as int) * c - (v.z as int) * s)
            + ((v.x as int) * s + (v.z as int) * c) * ((v.x as int) * s + (v.z as int) * c)
            == (SCALE as int) * (SCALE as int)
                * ((v.x as int) * (v.x as int) + (v.z as int) * (v.z as int)),
{
    lemma_rotation_identity(v.x as int, v.z as int, c, s);
}

} // verus!

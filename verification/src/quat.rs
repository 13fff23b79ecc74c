//! Fixed-point quaternions.
//!
//! A rotation is a quaternion whose components are scaled by `math::UNIT`;
//! the identity is `(UNIT, 0, 0, 0)`. Products divide by `UNIT` to stay on
//! that scale, and `renorm` rescales a quaternion to unit length after a
//! composition, so that component bounds hold at every step.

use vstd::prelude::*;

use crate::math::{
    cos_fix, isqrt, lemma_abs_mul_le, lemma_tdiv_bounds, sin_fix, spec_abs, spec_cos,
    spec_isqrt, spec_sin, spec_tdiv, tdiv, FULL_TURN, UNIT,
};
use crate::vec3::{spec_bounded, spec_cross, spec_dot, Vec3, V3};

verus! {

/// The mathematical model of a quaternion: an unbounded integer quadruple.
pub ghost struct Q4 {
    pub w: int,
    pub x: int,
    pub y: int,
    pub z: int,
}

#[derive(Clone, Copy, PartialEq, Eq, Structural, Debug)]
pub struct Quat {
    pub w: i128,
    pub x: i128,
    pub y: i128,
    pub z: i128,
}

impl View for Quat {
    type V = Q4;

    open spec fn view(&self) -> Q4 {
        Q4 { w: self.w as int, x: self.x as int, y: self.y as int, z: self.z as int }
    }
}

pub open spec fn spec_q_bounded(q: Q4, b: int) -> bool {
    &&& spec_abs(q.w) <= b
    &&& spec_abs(q.x) <= b
    &&& spec_abs(q.y) <= b
    &&& spec_abs(q.z) <= b
}

pub open spec fn spec_q_identity() -> Q4 {
    Q4 { w: UNIT as int, x: 0, y: 0, z: 0 }
}

pub open spec fn spec_q_norm_sq(q: Q4) -> int {
    q.w * q.w + q.x * q.x + q.y * q.y + q.z * q.z
}

/// The Hamilton product, rescaled back to the `UNIT` scale.
pub open spec fn spec_q_mul(a: Q4, b: Q4) -> Q4 {
    Q4 {
        w: spec_tdiv(a.w * b.w - a.x * b.x - a.y * b.y - a.z * b.z, UNIT as int),
        x: spec_tdiv(a.w * b.x + a.x * b.w + a.y * b.z - a.z * b.y, UNIT as int),
        y: spec_tdiv(a.w * b.y - a.x * b.z + a.y * b.w + a.z * b.x, UNIT as int),
        z: spec_tdiv(a.w * b.z + a.x * b.y - a.y * b.x + a.z * b.w, UNIT as int),
    }
}

/// A vector rotated by a quaternion: `v + 2 w (u x v) + 2 u x (u x v)`
/// expanded to `(w^2 - u.u) v + 2 (u.v) u + 2 w (u x v)`, divided by
/// `UNIT^2` to undo the quaternion scale.
pub open spec fn spec_q_rotate(q: Q4, v: V3) -> V3 {
    let u = V3 { x: q.x, y: q.y, z: q.z };
    let uu = spec_dot(u, u);
    let du = spec_dot(u, v);
    let cr = spec_cross(u, v);
    V3 {
        x: spec_tdiv(q.w * q.w * v.x - uu * v.x + 2 * du * u.x + 2 * q.w * cr.x, UNIT as int
            * UNIT as int),
        y: spec_tdiv(q.w * q.w * v.y - uu * v.y + 2 * du * u.y + 2 * q.w * cr.y, UNIT as int
            * UNIT as int),
        z: spec_tdiv(q.w * q.w * v.z - uu * v.z + 2 * du * u.z + 2 * q.w * cr.z, UNIT as int
            * UNIT as int),
    }
}

/// A quaternion rescaled to unit length, coordinate by coordinate; a
/// zero quaternion (which no well-formed rotation produces) becomes the
/// identity rather than dividing by zero.
pub open spec fn spec_q_renorm(q: Q4) -> Q4 {
    if spec_q_norm_sq(q) == 0 {
        spec_q_identity()
    } else {
        let l = spec_isqrt(spec_q_norm_sq(q) as nat) as int;
        Q4 {
            w: spec_tdiv(q.w * (UNIT as int), l),
            x: spec_tdiv(q.x * (UNIT as int), l),
            y: spec_tdiv(q.y * (UNIT as int), l),
            z: spec_tdiv(q.z * (UNIT as int), l),
        }
    }
}

/// Rotation about the x axis by an angle in millidegrees.
pub open spec fn spec_q_rot_x(a: int) -> Q4 {
    Q4 { w: spec_cos(a / 2), x: spec_sin(a / 2), y: 0, z: 0 }
}

/// Rotation about the y axis by an angle in millidegrees.
pub open spec fn spec_q_rot_y(a: int) -> Q4 {
    Q4 { w: spec_cos(a / 2), x: 0, y: spec_sin(a / 2), z: 0 }
}

/// Rotation about the z axis by an angle in millidegrees.
pub open spec fn spec_q_rot_z(a: int) -> Q4 {
    Q4 { w: spec_cos(a / 2), x: 0, y: 0, z: spec_sin(a / 2) }
}

/// The rotation carrying direction `u` onto direction `v` (both scaled by
/// `UNIT`): the unnormalized arc quaternion `(UNIT + u.v / UNIT, u x v / UNIT)`,
/// renormalized. Opposite or degenerate directions leave the arc with no
/// witness and fall back to the identity through `spec_q_renorm`.
pub open spec fn spec_q_rot_arc(u: V3, v: V3) -> Q4 {
    let cr = spec_cross(u, v);
    let raw = Q4 {
        w: UNIT as int + spec_tdiv(spec_dot(u, v), UNIT as int),
        x: spec_tdiv(cr.x, UNIT as int),
        y: spec_tdiv(cr.y, UNIT as int),
        z: spec_tdiv(cr.z, UNIT as int),
    };
    spec_q_renorm(raw)
}

impl Quat {
    pub fn identity() -> (r: Quat)
        ensures
            r@ == spec_q_identity(),
            spec_q_bounded(r@, UNIT as int),
    {
        Quat { w: UNIT, x: 0, y: 0, z: 0 }
    }

    /// Rotation about the x axis (pitch) by `a` millidegrees.
    pub fn rot_x(a: i128) -> (r: Quat)
        requires
            0 <= a < FULL_TURN,
        ensures
            r@ == spec_q_rot_x(a as int),
            spec_q_bounded(r@, UNIT as int),
    {
        let half = a / 2;
        Quat { w: cos_fix(half), x: sin_fix(half), y: 0, z: 0 }
    }

    /// Rotation about the y axis (yaw) by `a` millidegrees.
    pub fn rot_y(a: i128) -> (r: Quat)
        requires
            0 <= a < FULL_TURN,
        ensures
            r@ == spec_q_rot_y(a as int),
            spec_q_bounded(r@, UNIT as int),
    {
        let half = a / 2;
        Quat { w: cos_fix(half), x: 0, y: sin_fix(half), z: 0 }
    }

    /// Rotation about the z axis (roll) by `a` millidegrees.
    pub fn rot_z(a: i128) -> (r: Quat)
        requires
            0 <= a < FULL_TURN,
        ensures
            r@ == spec_q_rot_z(a as int),
            spec_q_bounded(r@, UNIT as int),
    {
        let half = a / 2;
        Quat { w: cos_fix(half), x: 0, y: 0, z: sin_fix(half) }
    }

    /// The Hamilton product. Operands within `4 UNIT` give a result within
    /// `64 UNIT`; renormalize to return to the unit scale.
    pub fn mul(&self, other: &Quat) -> (r: Quat)
        requires
            spec_q_bounded(self@, 4 * UNIT as int),
            spec_q_bounded(other@, 4 * UNIT as int),
        ensures
            r@ == spec_q_mul(self@, other@),
            spec_q_bounded(r@, 64 * UNIT as int),
            spec_q_bounded(self@, UNIT as int) && spec_q_bounded(other@, UNIT as int)
                ==> spec_q_bounded(r@, 4 * UNIT as int),
    {
        proof {
            lemma_q_products(self@, other@);
            if spec_q_bounded(self@, UNIT as int) && spec_q_bounded(other@, UNIT as int) {
                lemma_q_products_unit(self@, other@);
            }
        }
        let ww = self.w * other.w;
        let xx = self.x * other.x;
        let yy = self.y * other.y;
        let zz = self.z * other.z;
        let wx = self.w * other.x;
        let xw = self.x * other.w;
        let yz = self.y * other.z;
        let zy = self.z * other.y;
        let wy = self.w * other.y;
        let xz = self.x * other.z;
        let yw = self.y * other.w;
        let zx = self.z * other.x;
        let wz = self.w * other.z;
        let xy = self.x * other.y;
        let yx = self.y * other.x;
        let zw = self.z * other.w;
        let rw = tdiv(ww - xx - yy - zz, UNIT);
        let rx = tdiv(wx + xw + yz - zy, UNIT);
        let ry = tdiv(wy - xz + yw + zx, UNIT);
        let rz = tdiv(wz + xy - yx + zw, UNIT);
        proof {
            lemma_div_scale_bound(self@.w * other@.w - self@.x * other@.x - self@.y * other@.y
                - self@.z * other@.z, 64 * UNIT as int);
            lemma_div_scale_bound(self@.w * other@.x + self@.x * other@.w + self@.y * other@.z
                - self@.z * other@.y, 64 * UNIT as int);
            lemma_div_scale_bound(self@.w * other@.y - self@.x * other@.z + self@.y * other@.w
                + self@.z * other@.x, 64 * UNIT as int);
            lemma_div_scale_bound(self@.w * other@.z + self@.x * other@.y - self@.y * other@.x
                + self@.z * other@.w, 64 * UNIT as int);
            if spec_q_bounded(self@, UNIT as int) && spec_q_bounded(other@, UNIT as int) {
                lemma_div_scale_bound(self@.w * other@.w - self@.x * other@.x - self@.y
                    * other@.y - self@.z * other@.z, 4 * UNIT as int);
                lemma_div_scale_bound(self@.w * other@.x + self@.x * other@.w + self@.y
                    * other@.z - self@.z * other@.y, 4 * UNIT as int);
                lemma_div_scale_bound(self@.w * other@.y - self@.x * other@.z + self@.y
                    * other@.w + self@.z * other@.x, 4 * UNIT as int);
                lemma_div_scale_bound(self@.w * other@.z + self@.x * other@.y - self@.y
                    * other@.x + self@.z * other@.w, 4 * UNIT as int);
            }
        }
        Quat { w: rw, x: rx, y: ry, z: rz }
    }

    /// Rotate a vector whose coordinates are within `vb` by a quaternion
    /// within `4 UNIT`; the result's coordinates stay within `224 vb`.
    pub fn rotate(&self, v: &Vec3, Ghost(vb): Ghost<int>) -> (r: Vec3)
        requires
            spec_q_bounded(self@, 4 * UNIT as int),
            spec_bounded(v@, vb),
            0 <= vb <= 10_000_000_000_000,
        ensures
            r@ == spec_q_rotate(self@, v@),
            spec_bounded(r@, 224 * vb),
    {
        proof {
            lemma_rotate_products(self@, v@, vb);
            lemma_abs_mul_le(self@.w, self@.w, 4_000_000, 4_000_000);
            lemma_abs_mul_le(self@.x, self@.x, 4_000_000, 4_000_000);
            lemma_abs_mul_le(self@.y, self@.y, 4_000_000, 4_000_000);
            lemma_abs_mul_le(self@.z, self@.z, 4_000_000, 4_000_000);
            lemma_abs_mul_le(self@.x, v@.x, 4_000_000, vb);
            lemma_abs_mul_le(self@.y, v@.y, 4_000_000, vb);
            lemma_abs_mul_le(self@.z, v@.z, 4_000_000, vb);
            lemma_abs_mul_le(self@.y, v@.z, 4_000_000, vb);
            lemma_abs_mul_le(self@.z, v@.y, 4_000_000, vb);
            lemma_abs_mul_le(self@.z, v@.x, 4_000_000, vb);
            lemma_abs_mul_le(self@.x, v@.z, 4_000_000, vb);
            lemma_abs_mul_le(self@.x, v@.y, 4_000_000, vb);
            lemma_abs_mul_le(self@.y, v@.x, 4_000_000, vb);
        }
        let uu = self.x * self.x + self.y * self.y + self.z * self.z;
        let du = self.x * v.x + self.y * v.y + self.z * v.z;
        let crx = self.y * v.z - self.z * v.y;
        let cry = self.z * v.x - self.x * v.z;
        let crz = self.x * v.y - self.y * v.x;
        let s = UNIT * UNIT;
        let w2 = self.w * self.w;
        let nx = w2 * v.x - uu * v.x + 2 * du * self.x + 2 * self.w * crx;
        let ny = w2 * v.y - uu * v.y + 2 * du * self.y + 2 * self.w * cry;
        let nz = w2 * v.z - uu * v.z + 2 * du * self.z + 2 * self.w * crz;
        let rx = tdiv(nx, s);
        let ry = tdiv(ny, s);
        let rz = tdiv(nz, s);
        proof {
            let si = UNIT as int * UNIT as int;
            lemma_div_scale_bound_by(nx as int, si, 224 * vb);
            lemma_div_scale_bound_by(ny as int, si, 224 * vb);
            lemma_div_scale_bound_by(nz as int, si, 224 * vb);
        }
        Vec3 { x: rx, y: ry, z: rz }
    }

    /// Rescale to unit length; the zero quaternion becomes the identity.
    /// Every component of the result is within `UNIT`.
    pub fn renorm(&self) -> (r: Quat)
        requires
            spec_q_bounded(self@, 1_000_000_000),
        ensures
            r@ == spec_q_renorm(self@),
            spec_q_bounded(r@, UNIT as int),
    {
        proof {
            lemma_q_norm_products(self@, 1_000_000_000);
        }
        let ns = self.w * self.w + self.x * self.x + self.y * self.y + self.z * self.z;
        if ns == 0 {
            proof {
                lemma_q_norm_zero(self@);
            }
            Quat { w: UNIT, x: 0, y: 0, z: 0 }
        } else {
            let l = isqrt(ns);
            proof {
                assert(l >= 1) by (nonlinear_arith)
                    requires
                        l >= 0,
                        ns >= 1,
                        ns < (l + 1) * (l + 1),
                ;
                crate::vec3::lemma_scale_coord_le(self@.w, UNIT as int, spec_q_norm_sq(self@));
                crate::vec3::lemma_scale_coord_le(self@.x, UNIT as int, spec_q_norm_sq(self@));
                crate::vec3::lemma_scale_coord_le(self@.y, UNIT as int, spec_q_norm_sq(self@));
                crate::vec3::lemma_scale_coord_le(self@.z, UNIT as int, spec_q_norm_sq(self@));
                lemma_abs_mul_le(self@.w, UNIT as int, 1_000_000_000, UNIT as int);
                lemma_abs_mul_le(self@.x, UNIT as int, 1_000_000_000, UNIT as int);
                lemma_abs_mul_le(self@.y, UNIT as int, 1_000_000_000, UNIT as int);
                lemma_abs_mul_le(self@.z, UNIT as int, 1_000_000_000, UNIT as int);
            }
            Quat {
                w: tdiv(self.w * UNIT, l),
                x: tdiv(self.x * UNIT, l),
                y: tdiv(self.y * UNIT, l),
                z: tdiv(self.z * UNIT, l),
            }
        }
    }

    /// The rotation carrying direction `u` onto direction `v`, both scaled
    /// by `UNIT` and bounded by `2 UNIT` per coordinate.
    pub fn rot_arc(u: &Vec3, v: &Vec3) -> (r: Quat)
        requires
            spec_bounded(u@, 2 * UNIT as int),
            spec_bounded(v@, 2 * UNIT as int),
        ensures
            r@ == spec_q_rot_arc(u@, v@),
            spec_q_bounded(r@, UNIT as int),
    {
        let cr = u.cross(v);
        let d = u.dot(v);
        proof {
            lemma_arc_bounds(u@, v@);
        }
        let raw = Quat {
            w: UNIT + tdiv(d, UNIT),
            x: tdiv(cr.x, UNIT),
            y: tdiv(cr.y, UNIT),
            z: tdiv(cr.z, UNIT),
        };
        raw.renorm()
    }
}

/// Bounds for the sixteen pairwise products of two quaternions within
/// `4 UNIT`.
proof fn lemma_q_products(a: Q4, b: Q4)
    requires
        spec_q_bounded(a, 4 * UNIT as int),
        spec_q_bounded(b, 4 * UNIT as int),
    ensures
        spec_abs(a.w * b.w) <= 16 * UNIT as int * UNIT as int,
        spec_abs(a.w * b.x) <= 16 * UNIT as int * UNIT as int,
        spec_abs(a.w * b.y) <= 16 * UNIT as int * UNIT as int,
        spec_abs(a.w * b.z) <= 16 * UNIT as int * UNIT as int,
        spec_abs(a.x * b.w) <= 16 * UNIT as int * UNIT as int,
        spec_abs(a.x * b.x) <= 16 * UNIT as int * UNIT as int,
        spec_abs(a.x * b.y) <= 16 * UNIT as int * UNIT as int,
        spec_abs(a.x * b.z) <= 16 * UNIT as int * UNIT as int,
        spec_abs(a.y * b.w) <= 16 * UNIT as int * UNIT as int,
        spec_abs(a.y * b.x) <= 16 * UNIT as int * UNIT as int,
        spec_abs(a.y * b.y) <= 16 * UNIT as int * UNIT as int,
        spec_abs(a.y * b.z) <= 16 * UNIT as int * UNIT as int,
        spec_abs(a.z * b.w) <= 16 * UNIT as int * UNIT as int,
        spec_abs(a.z * b.x) <= 16 * UNIT as int * UNIT as int,
        spec_abs(a.z * b.y) <= 16 * UNIT as int * UNIT as int,
        spec_abs(a.z * b.z) <= 16 * UNIT as int * UNIT as int,
{
    let c = 4 * UNIT as int;
    assert(c * c == 16 * UNIT as int * UNIT as int) by (nonlinear_arith)
        requires
            c == 4 * UNIT as int,
    ;
    lemma_abs_mul_le(a.w, b.w, c, c);
    lemma_abs_mul_le(a.w, b.x, c, c);
    lemma_abs_mul_le(a.w, b.y, c, c);
    lemma_abs_mul_le(a.w, b.z, c, c);
    lemma_abs_mul_le(a.x, b.w, c, c);
    lemma_abs_mul_le(a.x, b.x, c, c);
    lemma_abs_mul_le(a.x, b.y, c, c);
    lemma_abs_mul_le(a.x, b.z, c, c);
    lemma_abs_mul_le(a.y, b.w, c, c);
    lemma_abs_mul_le(a.y, b.x, c, c);
    lemma_abs_mul_le(a.y, b.y, c, c);
    lemma_abs_mul_le(a.y, b.z, c, c);
    lemma_abs_mul_le(a.z, b.w, c, c);
    lemma_abs_mul_le(a.z, b.x, c, c);
    lemma_abs_mul_le(a.z, b.y, c, c);
    lemma_abs_mul_le(a.z, b.z, c, c);
}

/// Bounds for the sixteen pairwise products of two unit-scale quaternions.
proof fn lemma_q_products_unit(a: Q4, b: Q4)
    requires
        spec_q_bounded(a, UNIT as int),
        spec_q_bounded(b, UNIT as int),
    ensures
        spec_abs(a.w * b.w) <= 1_000_000_000_000,
        spec_abs(a.w * b.x) <= 1_000_000_000_000,
        spec_abs(a.w * b.y) <= 1_000_000_000_000,
        spec_abs(a.w * b.z) <= 1_000_000_000_000,
        spec_abs(a.x * b.w) <= 1_000_000_000_000,
        spec_abs(a.x * b.x) <= 1_000_000_000_000,
        spec_abs(a.x * b.y) <= 1_000_000_000_000,
        spec_abs(a.x * b.z) <= 1_000_000_000_000,
        spec_abs(a.y * b.w) <= 1_000_000_000_000,
        spec_abs(a.y * b.x) <= 1_000_000_000_000,
        spec_abs(a.y * b.y) <= 1_000_000_000_000,
        spec_abs(a.y * b.z) <= 1_000_000_000_000,
        spec_abs(a.z * b.w) <= 1_000_000_000_000,
        spec_abs(a.z * b.x) <= 1_000_000_000_000,
        spec_abs(a.z * b.y) <= 1_000_000_000_000,
        spec_abs(a.z * b.z) <= 1_000_000_000_000,
{
    lemma_abs_mul_le(a.w, b.w, 1_000_000, 1_000_000);
    lemma_abs_mul_le(a.w, b.x, 1_000_000, 1_000_000);
    lemma_abs_mul_le(a.w, b.y, 1_000_000, 1_000_000);
    lemma_abs_mul_le(a.w, b.z, 1_000_000, 1_000_000);
    lemma_abs_mul_le(a.x, b.w, 1_000_000, 1_000_000);
    lemma_abs_mul_le(a.x, b.x, 1_000_000, 1_000_000);
    lemma_abs_mul_le(a.x, b.y, 1_000_000, 1_000_000);
    lemma_abs_mul_le(a.x, b.z, 1_000_000, 1_000_000);
    lemma_abs_mul_le(a.y, b.w, 1_000_000, 1_000_000);
    lemma_abs_mul_le(a.y, b.x, 1_000_000, 1_000_000);
    lemma_abs_mul_le(a.y, b.y, 1_000_000, 1_000_000);
    lemma_abs_mul_le(a.y, b.z, 1_000_000, 1_000_000);
    lemma_abs_mul_le(a.z, b.w, 1_000_000, 1_000_000);
    lemma_abs_mul_le(a.z, b.x, 1_000_000, 1_000_000);
    lemma_abs_mul_le(a.z, b.y, 1_000_000, 1_000_000);
    lemma_abs_mul_le(a.z, b.z, 1_000_000, 1_000_000);
}

/// A value within `k UNIT^2` divided by `UNIT` lies within `k UNIT`.
proof fn lemma_div_scale_bound(a: int, k: int)
    requires
        spec_abs(a) <= k * UNIT as int,
        k >= 0,
    ensures
        spec_abs(spec_tdiv(a, UNIT as int)) <= k,
{
    lemma_tdiv_bounds(a, UNIT as int);
    assert(spec_abs(spec_tdiv(a, UNIT as int)) <= k) by (nonlinear_arith)
        requires
            (UNIT as int) * spec_abs(spec_tdiv(a, UNIT as int)) <= spec_abs(a),
            spec_abs(a) <= k * UNIT as int,
            spec_abs(spec_tdiv(a, UNIT as int)) >= 0,
            UNIT as int >= 1,
    ;
}

/// A value within `k d` divided by `d` lies within `k`.
proof fn lemma_div_scale_bound_by(a: int, d: int, k: int)
    requires
        spec_abs(a) <= k * d,
        k >= 0,
        d >= 1,
    ensures
        spec_abs(spec_tdiv(a, d)) <= k,
{
    lemma_tdiv_bounds(a, d);
    assert(spec_abs(spec_tdiv(a, d)) <= k) by (nonlinear_arith)
        requires
            d * spec_abs(spec_tdiv(a, d)) <= spec_abs(a),
            spec_abs(a) <= k * d,
            spec_abs(spec_tdiv(a, d)) >= 0,
            d >= 1,
    ;
}

/// Bounds for every intermediate quantity in a quaternion rotation, with
/// the constants written out (`UNIT` is one million).
proof fn lemma_rotate_products(q: Q4, v: V3, vb: int)
    requires
        spec_q_bounded(q, 4 * UNIT as int),
        spec_bounded(v, vb),
        0 <= vb <= 10_000_000_000_000,
    ensures
        ({
            let u = V3 { x: q.x, y: q.y, z: q.z };
            let uu = spec_dot(u, u);
            let du = spec_dot(u, v);
            let cr = spec_cross(u, v);
            &&& 0 <= uu <= 48_000_000_000_000
            &&& spec_abs(q.w * q.w) <= 16_000_000_000_000
            &&& spec_abs(du) <= 12_000_000 * vb
            &&& spec_abs(cr.x) <= 8_000_000 * vb
            &&& spec_abs(cr.y) <= 8_000_000 * vb
            &&& spec_abs(cr.z) <= 8_000_000 * vb
            &&& spec_abs(q.w * q.w * v.x) <= 16_000_000_000_000 * vb
            &&& spec_abs(q.w * q.w * v.y) <= 16_000_000_000_000 * vb
            &&& spec_abs(q.w * q.w * v.z) <= 16_000_000_000_000 * vb
            &&& spec_abs(uu * v.x) <= 48_000_000_000_000 * vb
            &&& spec_abs(uu * v.y) <= 48_000_000_000_000 * vb
            &&& spec_abs(uu * v.z) <= 48_000_000_000_000 * vb
            &&& spec_abs(2 * du * u.x) <= 96_000_000_000_000 * vb
            &&& spec_abs(2 * du * u.y) <= 96_000_000_000_000 * vb
            &&& spec_abs(2 * du * u.z) <= 96_000_000_000_000 * vb
            &&& spec_abs(2 * q.w * cr.x) <= 64_000_000_000_000 * vb
            &&& spec_abs(2 * q.w * cr.y) <= 64_000_000_000_000 * vb
            &&& spec_abs(2 * q.w * cr.z) <= 64_000_000_000_000 * vb
            &&& spec_abs(q.w * q.w * v.x - uu * v.x + 2 * du * u.x + 2 * q.w * cr.x)
                <= 224_000_000_000_000 * vb
            &&& spec_abs(q.w * q.w * v.y - uu * v.y + 2 * du * u.y + 2 * q.w * cr.y)
                <= 224_000_000_000_000 * vb
            &&& spec_abs(q.w * q.w * v.z - uu * v.z + 2 * du * u.z + 2 * q.w * cr.z)
                <= 224_000_000_000_000 * vb
        }),
{
    let u = V3 { x: q.x, y: q.y, z: q.z };
    let uu = spec_dot(u, u);
    let du = spec_dot(u, v);
    let cr = spec_cross(u, v);
    lemma_abs_mul_le(q.w, q.w, 4_000_000, 4_000_000);
    lemma_abs_mul_le(q.x, q.x, 4_000_000, 4_000_000);
    lemma_abs_mul_le(q.y, q.y, 4_000_000, 4_000_000);
    lemma_abs_mul_le(q.z, q.z, 4_000_000, 4_000_000);
    assert(q.x * q.x >= 0 && q.y * q.y >= 0 && q.z * q.z >= 0) by (nonlinear_arith);
    lemma_abs_mul_le(q.x, v.x, 4_000_000, vb);
    lemma_abs_mul_le(q.y, v.y, 4_000_000, vb);
    lemma_abs_mul_le(q.z, v.z, 4_000_000, vb);
    lemma_abs_mul_le(q.y, v.z, 4_000_000, vb);
    lemma_abs_mul_le(q.z, v.y, 4_000_000, vb);
    lemma_abs_mul_le(q.z, v.x, 4_000_000, vb);
    lemma_abs_mul_le(q.x, v.z, 4_000_000, vb);
    lemma_abs_mul_le(q.x, v.y, 4_000_000, vb);
    lemma_abs_mul_le(q.y, v.x, 4_000_000, vb);
    lemma_abs_mul_le(q.w * q.w, v.x, 16_000_000_000_000, vb);
    lemma_abs_mul_le(q.w * q.w, v.y, 16_000_000_000_000, vb);
    lemma_abs_mul_le(q.w * q.w, v.z, 16_000_000_000_000, vb);
    lemma_abs_mul_le(uu, v.x, 48_000_000_000_000, vb);
    lemma_abs_mul_le(uu, v.y, 48_000_000_000_000, vb);
    lemma_abs_mul_le(uu, v.z, 48_000_000_000_000, vb);
    lemma_abs_mul_le(2 * du, u.x, 24_000_000 * vb, 4_000_000);
    lemma_abs_mul_le(2 * du, u.y, 24_000_000 * vb, 4_000_000);
    lemma_abs_mul_le(2 * du, u.z, 24_000_000 * vb, 4_000_000);
    lemma_abs_mul_le(2 * q.w, cr.x, 8_000_000, 8_000_000 * vb);
    lemma_abs_mul_le(2 * q.w, cr.y, 8_000_000, 8_000_000 * vb);
    lemma_abs_mul_le(2 * q.w, cr.z, 8_000_000, 8_000_000 * vb);
    assert((24_000_000 * vb) * 4_000_000 == 96_000_000_000_000 * vb) by (nonlinear_arith);
    assert(8_000_000 * (8_000_000 * vb) == 64_000_000_000_000 * vb) by (nonlinear_arith);
}

/// The four squares of a quaternion's components are bounded by its norm.
proof fn lemma_q_norm_products(q: Q4, b: int)
    requires
        spec_q_bounded(q, b),
        b >= 0,
    ensures
        q.w * q.w <= spec_q_norm_sq(q),
        q.x * q.x <= spec_q_norm_sq(q),
        q.y * q.y <= spec_q_norm_sq(q),
        q.z * q.z <= spec_q_norm_sq(q),
        0 <= spec_q_norm_sq(q) <= 4 * b * b,
{
    assert(q.w * q.w <= q.w * q.w + q.x * q.x + q.y * q.y + q.z * q.z && q.x * q.x <= q.w * q.w
        + q.x * q.x + q.y * q.y + q.z * q.z && q.y * q.y <= q.w * q.w + q.x * q.x + q.y * q.y
        + q.z * q.z && q.z * q.z <= q.w * q.w + q.x * q.x + q.y * q.y + q.z * q.z && 0 <= q.w
        * q.w + q.x * q.x + q.y * q.y + q.z * q.z && q.w * q.w + q.x * q.x + q.y * q.y + q.z * q.z
        <= 4 * b * b) by (nonlinear_arith)
        requires
            -b <= q.w <= b,
            -b <= q.x <= b,
            -b <= q.y <= b,
            -b <= q.z <= b,
    ;
}

/// A quaternion with zero norm is the zero quaternion.
proof fn lemma_q_norm_zero(q: Q4)
    requires
        spec_q_norm_sq(q) == 0,
    ensures
        q.w == 0 && q.x == 0 && q.y == 0 && q.z == 0,
{
    assert(q.w == 0 && q.x == 0 && q.y == 0 && q.z == 0) by (nonlinear_arith)
        requires
            q.w * q.w + q.x * q.x + q.y * q.y + q.z * q.z == 0,
    ;
}

/// Bounds for the raw arc quaternion built from two directions within
/// `2 UNIT`.
proof fn lemma_arc_bounds(u: V3, v: V3)
    requires
        spec_bounded(u, 2 * UNIT as int),
        spec_bounded(v, 2 * UNIT as int),
    ensures
        spec_abs(spec_dot(u, v)) <= 12 * UNIT as int * UNIT as int,
        spec_abs(spec_tdiv(spec_dot(u, v), UNIT as int)) <= 12 * UNIT as int,
        spec_abs(spec_cross(u, v).x) <= 8 * UNIT as int * UNIT as int,
        spec_abs(spec_cross(u, v).y) <= 8 * UNIT as int * UNIT as int,
        spec_abs(spec_cross(u, v).z) <= 8 * UNIT as int * UNIT as int,
        spec_abs(spec_tdiv(spec_cross(u, v).x, UNIT as int)) <= 8 * UNIT as int,
        spec_abs(spec_tdiv(spec_cross(u, v).y, UNIT as int)) <= 8 * UNIT as int,
        spec_abs(spec_tdiv(spec_cross(u, v).z, UNIT as int)) <= 8 * UNIT as int,
{
    let c = 2 * UNIT as int;
    assert(c * c == 4 * UNIT as int * UNIT as int) by (nonlinear_arith)
        requires
            c == 2 * UNIT as int,
    ;
    lemma_abs_mul_le(u.x, v.x, c, c);
    lemma_abs_mul_le(u.y, v.y, c, c);
    lemma_abs_mul_le(u.z, v.z, c, c);
    lemma_abs_mul_le(u.y, v.z, c, c);
    lemma_abs_mul_le(u.z, v.y, c, c);
    lemma_abs_mul_le(u.z, v.x, c, c);
    lemma_abs_mul_le(u.x, v.z, c, c);
    lemma_abs_mul_le(u.x, v.y, c, c);
    lemma_abs_mul_le(u.y, v.x, c, c);
    lemma_div_scale_bound(spec_dot(u, v), 12 * UNIT as int);
    lemma_div_scale_bound(spec_cross(u, v).x, 8 * UNIT as int);
    lemma_div_scale_bound(spec_cross(u, v).y, 8 * UNIT as int);
    lemma_div_scale_bound(spec_cross(u, v).z, 8 * UNIT as int);
}

} // verus!

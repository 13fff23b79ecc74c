//! Integer 3-vectors.
//!
//! Positions and directions are plain `i128` triples. Directions of unit
//! length are scaled by `math::UNIT`. The central operation is
//! `scale_to_len`, which rescales a nonzero vector to a given length by the
//! integer square root of its squared length; its rounding error is pinned
//! down by the lemmas at the end of the module.

use vstd::prelude::*;

use crate::math::{
    isqrt, lemma_abs_mul_le, lemma_isqrt_bounds, lemma_tdiv_bounds, lemma_tdiv_nonneg, spec_abs,
    spec_isqrt, spec_tdiv, tdiv,
};

verus! {

/// The mathematical model of a vector: an unbounded integer triple.
pub ghost struct V3 {
    pub x: int,
    pub y: int,
    pub z: int,
}

/// Coordinate bound on executable vectors: generous enough for every
/// intermediate quantity in this crate, small enough that squared lengths
/// fit in `i128`.
pub const COORD_LIMIT: i128 = 1_000_000_000_000_000_000;

#[derive(Clone, Copy, PartialEq, Eq, Structural, Debug)]
pub struct Vec3 {
    pub x: i128,
    pub y: i128,
    pub z: i128,
}

impl View for Vec3 {
    type V = V3;

    open spec fn view(&self) -> V3 {
        V3 { x: self.x as int, y: self.y as int, z: self.z as int }
    }
}

pub open spec fn spec_bounded(v: V3, b: int) -> bool {
    &&& spec_abs(v.x) <= b
    &&& spec_abs(v.y) <= b
    &&& spec_abs(v.z) <= b
}

pub open spec fn spec_add(a: V3, b: V3) -> V3 {
    V3 { x: a.x + b.x, y: a.y + b.y, z: a.z + b.z }
}

pub open spec fn spec_sub(a: V3, b: V3) -> V3 {
    V3 { x: a.x - b.x, y: a.y - b.y, z: a.z - b.z }
}

pub open spec fn spec_neg(a: V3) -> V3 {
    V3 { x: -a.x, y: -a.y, z: -a.z }
}

pub open spec fn spec_dot(a: V3, b: V3) -> int {
    a.x * b.x + a.y * b.y + a.z * b.z
}

pub open spec fn spec_len_sq(a: V3) -> int {
    spec_dot(a, a)
}

pub open spec fn spec_dist_sq(a: V3, b: V3) -> int {
    spec_len_sq(spec_sub(a, b))
}

pub open spec fn spec_cross(a: V3, b: V3) -> V3 {
    V3 {
        x: a.y * b.z - a.z * b.y,
        y: a.z * b.x - a.x * b.z,
        z: a.x * b.y - a.y * b.x,
    }
}

/// `v` rescaled to length `t`: each coordinate becomes `v_i * t / |v|`,
/// rounded toward zero. The zero vector stays zero (rescaling it has no
/// direction to follow, so it is a no-op).
pub open spec fn spec_scale_to_len(v: V3, t: int) -> V3 {
    if spec_len_sq(v) == 0 {
        V3 { x: 0, y: 0, z: 0 }
    } else {
        let l = spec_isqrt(spec_len_sq(v) as nat) as int;
        V3 {
            x: spec_tdiv(v.x * t, l),
            y: spec_tdiv(v.y * t, l),
            z: spec_tdiv(v.z * t, l),
        }
    }
}

/// Each coordinate's square is at most the squared length, and a coordinate
/// bound caps the squared length.
pub proof fn lemma_len_sq_coords(a: V3, b: int)
    requires
        spec_bounded(a, b),
        b >= 0,
    ensures
        a.x * a.x <= spec_len_sq(a),
        a.y * a.y <= spec_len_sq(a),
        a.z * a.z <= spec_len_sq(a),
        spec_len_sq(a) <= 3 * b * b,
{
    assert(a.x * a.x <= a.x * a.x + a.y * a.y + a.z * a.z && a.y * a.y <= a.x * a.x + a.y * a.y
        + a.z * a.z && a.z * a.z <= a.x * a.x + a.y * a.y + a.z * a.z && a.x * a.x + a.y * a.y
        + a.z * a.z <= 3 * b * b) by (nonlinear_arith)
        requires
            -b <= a.x <= b,
            -b <= a.y <= b,
            -b <= a.z <= b,
    ;
}

/// A squared length is nonnegative, and zero exactly on the zero vector.
pub proof fn lemma_len_sq_nonneg(a: V3)
    ensures
        spec_len_sq(a) >= 0,
        spec_len_sq(a) == 0 <==> a == (V3 { x: 0, y: 0, z: 0 }),
{
    assert(a.x * a.x + a.y * a.y + a.z * a.z >= 0 && (a.x * a.x + a.y * a.y + a.z * a.z == 0
        <==> (a.x == 0 && a.y == 0 && a.z == 0))) by (nonlinear_arith);
}

impl Vec3 {
    pub fn new(x: i128, y: i128, z: i128) -> (r: Vec3)
        ensures
            r@ == (V3 { x: x as int, y: y as int, z: z as int }),
    {
        Vec3 { x, y, z }
    }

    pub open spec fn wf(&self) -> bool {
        spec_bounded(self@, COORD_LIMIT as int)
    }

    pub fn add(&self, other: &Vec3) -> (r: Vec3)
        requires
            self.wf(),
            other.wf(),
        ensures
            r@ == spec_add(self@, other@),
    {
        Vec3 { x: self.x + other.x, y: self.y + other.y, z: self.z + other.z }
    }

    pub fn sub(&self, other: &Vec3) -> (r: Vec3)
        requires
            self.wf(),
            other.wf(),
        ensures
            r@ == spec_sub(self@, other@),
    {
        Vec3 { x: self.x - other.x, y: self.y - other.y, z: self.z - other.z }
    }

    pub fn neg(&self) -> (r: Vec3)
        requires
            self.wf(),
        ensures
            r@ == spec_neg(self@),
    {
        Vec3 { x: -self.x, y: -self.y, z: -self.z }
    }

    pub fn dot(&self, other: &Vec3) -> (r: i128)
        requires
            self.wf(),
            other.wf(),
        ensures
            r == spec_dot(self@, other@),
    {
        proof {
            lemma_abs_mul_le(self@.x, other@.x, COORD_LIMIT as int, COORD_LIMIT as int);
            lemma_abs_mul_le(self@.y, other@.y, COORD_LIMIT as int, COORD_LIMIT as int);
            lemma_abs_mul_le(self@.z, other@.z, COORD_LIMIT as int, COORD_LIMIT as int);
        }
        self.x * other.x + self.y * other.y + self.z * other.z
    }

    pub fn cross(&self, other: &Vec3) -> (r: Vec3)
        requires
            self.wf(),
            other.wf(),
        ensures
            r@ == spec_cross(self@, other@),
    {
        proof {
            lemma_abs_mul_le(self@.y, other@.z, COORD_LIMIT as int, COORD_LIMIT as int);
            lemma_abs_mul_le(self@.z, other@.y, COORD_LIMIT as int, COORD_LIMIT as int);
            lemma_abs_mul_le(self@.z, other@.x, COORD_LIMIT as int, COORD_LIMIT as int);
            lemma_abs_mul_le(self@.x, other@.z, COORD_LIMIT as int, COORD_LIMIT as int);
            lemma_abs_mul_le(self@.x, other@.y, COORD_LIMIT as int, COORD_LIMIT as int);
            lemma_abs_mul_le(self@.y, other@.x, COORD_LIMIT as int, COORD_LIMIT as int);
        }
        Vec3 {
            x: self.y * other.z - self.z * other.y,
            y: self.z * other.x - self.x * other.z,
            z: self.x * other.y - self.y * other.x,
        }
    }

    pub fn len_sq(&self) -> (r: i128)
        requires
            self.wf(),
        ensures
            r == spec_len_sq(self@),
            r >= 0,
    {
        proof {
            lemma_len_sq_nonneg(self@);
        }
        self.dot(self)
    }

    pub fn dist_sq(&self, other: &Vec3) -> (r: i128)
        requires
            self.wf(),
            other.wf(),
            spec_bounded(self@, 500_000_000_000_000_000),
            spec_bounded(other@, 500_000_000_000_000_000),
        ensures
            r == spec_dist_sq(self@, other@),
            r >= 0,
    {
        let d = self.sub(other);
        d.len_sq()
    }

    /// Rescale `self` to length `t` (rounding toward zero); the zero vector
    /// is returned unchanged. Every coordinate of the result is bounded by
    /// `t` in magnitude.
    pub fn scale_to_len(&self, t: i128) -> (r: Vec3)
        requires
            self.wf(),
            0 <= t <= COORD_LIMIT,
        ensures
            r@ == spec_scale_to_len(self@, t as int),
            spec_bounded(r@, t as int),
    {
        let ls = self.len_sq();
        proof {
            lemma_len_sq_coords(self@, COORD_LIMIT as int);
        }
        if ls == 0 {
            proof {
                lemma_len_sq_nonneg(self@);
            }
            Vec3 { x: 0, y: 0, z: 0 }
        } else {
            let l = isqrt(ls);
            proof {
                assert(l >= 1) by (nonlinear_arith)
                    requires
                        l >= 0,
                        ls >= 1,
                        ls < (l + 1) * (l + 1),
                ;
                lemma_scale_coord_le(self@.x, t as int, spec_len_sq(self@));
                lemma_scale_coord_le(self@.y, t as int, spec_len_sq(self@));
                lemma_scale_coord_le(self@.z, t as int, spec_len_sq(self@));
                lemma_abs_mul_le(self@.x, t as int, COORD_LIMIT as int, COORD_LIMIT as int);
                lemma_abs_mul_le(self@.y, t as int, COORD_LIMIT as int, COORD_LIMIT as int);
                lemma_abs_mul_le(self@.z, t as int, COORD_LIMIT as int, COORD_LIMIT as int);
            }
            Vec3 {
                x: tdiv(self.x * t, l),
                y: tdiv(self.y * t, l),
                z: tdiv(self.z * t, l),
            }
        }
    }
}

/// One rescaled coordinate is at most `t` in magnitude: a coordinate never
/// exceeds the vector's length.
pub proof fn lemma_scale_coord_le(c: int, t: int, ls: int)
    requires
        c * c <= ls,
        t >= 0,
        ls > 0,
    ensures
        spec_abs(spec_tdiv(c * t, spec_isqrt(ls as nat) as int)) <= t,
{
    let l = spec_isqrt(ls as nat) as int;
    lemma_isqrt_bounds(ls as nat);
    assert(l * l <= ls);
    assert(ls < (l + 1) * (l + 1));
    assert(l >= 1) by (nonlinear_arith)
        requires
            l >= 0,
            l * l <= ls,
            ls < (l + 1) * (l + 1),
            ls > 0,
    ;
    // |c| <= l, else c * c >= (l+1)^2 > ls.
    assert(spec_abs(c) <= l) by (nonlinear_arith)
        requires
            c * c <= ls,
            ls < (l + 1) * (l + 1),
            l >= 0,
    ;
    lemma_tdiv_bounds(c * t, l);
    let q = spec_abs(spec_tdiv(c * t, l));
    assert(spec_abs(c * t) <= l * t) by (nonlinear_arith)
        requires
            spec_abs(c) <= l,
            t >= 0,
    ;
    assert(q <= t) by (nonlinear_arith)
        requires
            l * q <= spec_abs(c * t),
            spec_abs(c * t) <= l * t,
            l >= 1,
            q >= 0,
    ;
}

/// Squared bounds for one rescaled coordinate `q = (u t) / l` (`u >= 0`):
/// `(u t)^2 - 2 l (u t) <= (l q)^2 <= (u t)^2`, restated with the products
/// pulled apart as `l^2 q^2` and `t^2 u^2`.
proof fn lemma_scale_coord_sq(u: int, t: int, l: int)
    requires
        u >= 0,
        t >= 0,
        l >= 1,
    ensures
        l * l * (spec_tdiv(u * t, l) * spec_tdiv(u * t, l)) <= t * t * (u * u),
        l * l * (spec_tdiv(u * t, l) * spec_tdiv(u * t, l)) >= t * t * (u * u) - 2 * l * t * u,
{
    assert(u * t >= 0) by (nonlinear_arith)
        requires
            u >= 0,
            t >= 0,
    ;
    let p = u * t;
    lemma_tdiv_nonneg(p, l);
    let q = spec_tdiv(p, l);
    assert(l * l * (q * q) <= p * p) by (nonlinear_arith)
        requires
            0 <= l * q,
            l * q <= p,
    ;
    if p >= l {
        assert(l * q >= p - l) by (nonlinear_arith)
            requires
                p < l * (q + 1),
        ;
        assert(l * l * (q * q) >= p * p - 2 * l * p) by (nonlinear_arith)
            requires
                l * q >= p - l,
                l * q >= 0,
                p >= l,
                l >= 1,
        ;
    } else {
        assert(q == 0) by (nonlinear_arith)
            requires
                l * q <= p,
                p < l,
                l >= 1,
                q >= 0,
        ;
        assert(0 >= p * p - 2 * l * p) by (nonlinear_arith)
            requires
                0 <= p,
                p < l,
        ;
    }
    assert(p * p == t * t * (u * u) && 2 * l * p == 2 * l * t * u) by (nonlinear_arith)
        requires
            p == u * t,
    ;
}

/// The coordinate magnitudes of a vector sum to at most `2 (l + 1)` where
/// `l` is the integer square root of the squared length.
proof fn lemma_sum_abs_le(v: V3)
    ensures
        spec_abs(v.x) + spec_abs(v.y) + spec_abs(v.z) <= 2 * (spec_isqrt(
            spec_len_sq(v) as nat,
        ) + 1),
{
    lemma_len_sq_nonneg(v);
    let ls = spec_len_sq(v);
    let l = spec_isqrt(ls as nat) as int;
    lemma_isqrt_bounds(ls as nat);
    let s = spec_abs(v.x) + spec_abs(v.y) + spec_abs(v.z);
    assert(s * s <= 3 * ls) by (nonlinear_arith)
        requires
            s == spec_abs(v.x) + spec_abs(v.y) + spec_abs(v.z),
            ls == v.x * v.x + v.y * v.y + v.z * v.z,
            spec_abs(v.x) == if v.x >= 0 { v.x } else { -v.x },
            spec_abs(v.y) == if v.y >= 0 { v.y } else { -v.y },
            spec_abs(v.z) == if v.z >= 0 { v.z } else { -v.z },
    ;
    assert(s <= 2 * (l + 1)) by (nonlinear_arith)
        requires
            s * s <= 3 * ls,
            ls < (l + 1) * (l + 1),
            s >= 0,
            l >= 0,
    ;
}

/// `|c| t` divided by `l` is the magnitude of `c t` divided by `l`.
proof fn lemma_tdiv_neg_arg(c: int, t: int, l: int)
    requires
        t >= 0,
        l >= 1,
    ensures
        spec_tdiv(spec_abs(c) * t, l) == if c >= 0 {
            spec_tdiv(c * t, l)
        } else {
            -spec_tdiv(c * t, l)
        },
{
    if c < 0 {
        assert(spec_abs(c) * t == -(c * t)) by (nonlinear_arith)
            requires
                c < 0,
                spec_abs(c) == -c,
        ;
        assert(c * t <= 0) by (nonlinear_arith)
            requires
                c < 0,
                t >= 0,
        ;
    }
}

/// The squared coordinates of the rescaled vector, written over the
/// magnitudes of the original coordinates.
proof fn lemma_stl_coords(v: V3, t: int)
    requires
        spec_len_sq(v) > 0,
        t >= 0,
    ensures
        ({
            let l = spec_isqrt(spec_len_sq(v) as nat) as int;
            let r = spec_scale_to_len(v, t);
            &&& r.x * r.x == spec_tdiv(spec_abs(v.x) * t, l) * spec_tdiv(spec_abs(v.x) * t, l)
            &&& r.y * r.y == spec_tdiv(spec_abs(v.y) * t, l) * spec_tdiv(spec_abs(v.y) * t, l)
            &&& r.z * r.z == spec_tdiv(spec_abs(v.z) * t, l) * spec_tdiv(spec_abs(v.z) * t, l)
            &&& l >= 1
        }),
{
    let ls = spec_len_sq(v);
    let l = spec_isqrt(ls as nat) as int;
    lemma_isqrt_bounds(ls as nat);
    assert(l >= 1) by (nonlinear_arith)
        requires
            l >= 0,
            ls >= 1,
            ls < (l + 1) * (l + 1),
    ;
    let r = spec_scale_to_len(v, t);
    assert(r.x == spec_tdiv(v.x * t, l));
    assert(r.y == spec_tdiv(v.y * t, l));
    assert(r.z == spec_tdiv(v.z * t, l));
    lemma_tdiv_neg_arg(v.x, t, l);
    lemma_tdiv_neg_arg(v.y, t, l);
    lemma_tdiv_neg_arg(v.z, t, l);
    let qx = spec_tdiv(spec_abs(v.x) * t, l);
    let qy = spec_tdiv(spec_abs(v.y) * t, l);
    let qz = spec_tdiv(spec_abs(v.z) * t, l);
    assert(r.x * r.x == qx * qx && r.y * r.y == qy * qy && r.z * r.z == qz * qz) by (
    nonlinear_arith)
        requires
            qx == if v.x >= 0 { r.x } else { -(r.x) },
            qy == if v.y >= 0 { r.y } else { -(r.y) },
            qz == if v.z >= 0 { r.z } else { -(r.z) },
    ;
}

/// Rescaling a nonzero vector to length `t` loses at most `8 t` of squared
/// length to rounding.
pub proof fn lemma_stl_len_lower(v: V3, t: int)
    requires
        spec_len_sq(v) > 0,
        t >= 0,
    ensures
        spec_len_sq(spec_scale_to_len(v, t)) >= t * t - 8 * t,
{
    let ls = spec_len_sq(v);
    let l = spec_isqrt(ls as nat) as int;
    lemma_isqrt_bounds(ls as nat);
    lemma_stl_coords(v, t);
    let ux = spec_abs(v.x);
    let uy = spec_abs(v.y);
    let uz = spec_abs(v.z);
    lemma_scale_coord_sq(ux, t, l);
    lemma_scale_coord_sq(uy, t, l);
    lemma_scale_coord_sq(uz, t, l);
    lemma_sum_abs_le(v);
    let r = spec_scale_to_len(v, t);
    let s = spec_len_sq(r);
    let qx = spec_tdiv(ux * t, l);
    let qy = spec_tdiv(uy * t, l);
    let qz = spec_tdiv(uz * t, l);
    assert(ls == ux * ux + uy * uy + uz * uz) by (nonlinear_arith)
        requires
            ls == v.x * v.x + v.y * v.y + v.z * v.z,
            ux == if v.x >= 0 { v.x } else { -v.x },
            uy == if v.y >= 0 { v.y } else { -v.y },
            uz == if v.z >= 0 { v.z } else { -v.z },
    ;
    // Distribute the products so the three bounds can be summed linearly.
    assert(l * l * s == l * l * (qx * qx) + l * l * (qy * qy) + l * l * (qz * qz)) by (
    nonlinear_arith)
        requires
            s == qx * qx + qy * qy + qz * qz,
    ;
    assert(t * t * ls == t * t * (ux * ux) + t * t * (uy * uy) + t * t * (uz * uz)) by (
    nonlinear_arith)
        requires
            ls == ux * ux + uy * uy + uz * uz,
    ;
    assert(2 * l * t * ux + 2 * l * t * uy + 2 * l * t * uz == 2 * l * t * (ux + uy + uz)) by (
    nonlinear_arith);
    assert(l * l * s >= t * t * ls - 2 * l * t * (ux + uy + uz));
    assert(2 * l * t * (ux + uy + uz) <= 8 * t * (l * l)) by (nonlinear_arith)
        requires
            ux + uy + uz <= 2 * (l + 1),
            ux >= 0,
            uy >= 0,
            uz >= 0,
            l >= 1,
            t >= 0,
    ;
    assert(t * t * ls >= t * t * (l * l)) by (nonlinear_arith)
        requires
            ls >= l * l,
            t >= 0,
    ;
    assert(s >= t * t - 8 * t) by (nonlinear_arith)
        requires
            l * l * s >= t * t * (l * l) - 8 * t * (l * l),
            l >= 1,
    ;
}

/// Rescaling a vector of length at least `m` to length `t` overshoots the
/// squared length `t^2` by at most `2 t^2 / m`, stated multiplied through
/// by `m`.
pub proof fn lemma_stl_len_upper(v: V3, t: int, m: int)
    requires
        spec_len_sq(v) >= m * m,
        m >= 1,
        t >= 0,
    ensures
        m * spec_len_sq(spec_scale_to_len(v, t)) <= m * (t * t) + 2 * (t * t),
{
    let ls = spec_len_sq(v);
    assert(ls >= 1) by (nonlinear_arith)
        requires
            ls >= m * m,
            m >= 1,
    ;
    let l = spec_isqrt(ls as nat) as int;
    lemma_isqrt_bounds(ls as nat);
    assert(l >= m) by {
        crate::math::lemma_isqrt_square(m as nat);
        crate::math::lemma_isqrt_monotone((m * m) as nat, ls as nat);
    }
    lemma_stl_coords(v, t);
    let ux = spec_abs(v.x);
    let uy = spec_abs(v.y);
    let uz = spec_abs(v.z);
    lemma_scale_coord_sq(ux, t, l);
    lemma_scale_coord_sq(uy, t, l);
    lemma_scale_coord_sq(uz, t, l);
    let r = spec_scale_to_len(v, t);
    let s = spec_len_sq(r);
    let qx = spec_tdiv(ux * t, l);
    let qy = spec_tdiv(uy * t, l);
    let qz = spec_tdiv(uz * t, l);
    assert(ls == ux * ux + uy * uy + uz * uz) by (nonlinear_arith)
        requires
            ls == v.x * v.x + v.y * v.y + v.z * v.z,
            ux == if v.x >= 0 { v.x } else { -v.x },
            uy == if v.y >= 0 { v.y } else { -v.y },
            uz == if v.z >= 0 { v.z } else { -v.z },
    ;
    assert(l * l * s == l * l * (qx * qx) + l * l * (qy * qy) + l * l * (qz * qz)) by (
    nonlinear_arith)
        requires
            s == qx * qx + qy * qy + qz * qz,
    ;
    assert(t * t * ls == t * t * (ux * ux) + t * t * (uy * uy) + t * t * (uz * uz)) by (
    nonlinear_arith)
        requires
            ls == ux * ux + uy * uy + uz * uz,
    ;
    assert(l * l * s <= t * t * ls);
    assert(ls <= l * l + 2 * l) by (nonlinear_arith)
        requires
            ls < (l + 1) * (l + 1),
    ;
    assert(t * t * ls <= t * t * (l * l) + 2 * (t * t) * l) by (nonlinear_arith)
        requires
            ls <= l * l + 2 * l,
            t >= 0,
    ;
    // Divide once by l: l s <= t^2 l + 2 t^2.
    assert(l * s <= t * t * l + 2 * (t * t)) by (nonlinear_arith)
        requires
            l * l * s <= t * t * (l * l) + 2 * (t * t) * l,
            l >= 1,
    ;
    // Replace the divisor l by the smaller m.
    if s <= t * t {
        assert(m * s <= m * (t * t) + 2 * (t * t)) by (nonlinear_arith)
            requires
                s <= t * t,
                m >= 1,
                t >= 0,
        ;
    } else {
        assert(m * s <= m * (t * t) + 2 * (t * t)) by (nonlinear_arith)
            requires
                l * s <= t * t * l + 2 * (t * t),
                s > t * t,
                l >= m,
                m >= 1,
        ;
    }
}

/// The Cauchy-Schwarz inequality for integer 3-vectors, by Lagrange's
/// identity, expanded through the nine pairwise products.
#[verifier::rlimit(50)]
pub proof fn lemma_cauchy_schwarz(a: V3, b: V3)
    ensures
        spec_dot(a, b) * spec_dot(a, b) <= spec_len_sq(a) * spec_len_sq(b),
{
    let p = a.x * b.x;
    let q = a.y * b.y;
    let r = a.z * b.z;
    let u = a.x * b.y;
    let v = a.y * b.x;
    let w = a.x * b.z;
    let s = a.z * b.x;
    let m = a.y * b.z;
    let n = a.z * b.y;
    let d = spec_dot(a, b);
    let lsa = spec_len_sq(a);
    let lsb = spec_len_sq(b);
    // (sum of a_i^2)(sum of b_j^2) is the sum of the nine product squares,
    // expanded one row at a time.
    let axx = a.x * a.x;
    let ayy = a.y * a.y;
    let azz = a.z * a.z;
    assert(lsa * lsb == axx * lsb + ayy * lsb + azz * lsb) by (nonlinear_arith)
        requires
            lsa == axx + ayy + azz,
    ;
    assert(axx * lsb == p * p + u * u + w * w) by (nonlinear_arith)
        requires
            axx == a.x * a.x,
            lsb == b.x * b.x + b.y * b.y + b.z * b.z,
            p == a.x * b.x,
            u == a.x * b.y,
            w == a.x * b.z,
    ;
    assert(ayy * lsb == v * v + q * q + m * m) by (nonlinear_arith)
        requires
            ayy == a.y * a.y,
            lsb == b.x * b.x + b.y * b.y + b.z * b.z,
            v == a.y * b.x,
            q == a.y * b.y,
            m == a.y * b.z,
    ;
    assert(azz * lsb == s * s + n * n + r * r) by (nonlinear_arith)
        requires
            azz == a.z * a.z,
            lsb == b.x * b.x + b.y * b.y + b.z * b.z,
            s == a.z * b.x,
            n == a.z * b.y,
            r == a.z * b.z,
    ;
    assert(lsa * lsb == p * p + q * q + r * r + u * u + v * v + w * w + s * s + m * m + n * n);
    // The mixed products pair up: u v = p q, w s = p r, m n = q r.
    assert(u * v == p * q && w * s == p * r && m * n == q * r) by (nonlinear_arith)
        requires
            p == a.x * b.x,
            q == a.y * b.y,
            r == a.z * b.z,
            u == a.x * b.y,
            v == a.y * b.x,
            w == a.x * b.z,
            s == a.z * b.x,
            m == a.y * b.z,
            n == a.z * b.y,
    ;
    assert(d * d == p * p + q * q + r * r + 2 * (p * q) + 2 * (p * r) + 2 * (q * r)) by (
    nonlinear_arith)
        requires
            d == p + q + r,
    ;
    assert((u - v) * (u - v) == u * u + v * v - 2 * (u * v)) by (nonlinear_arith);
    assert((w - s) * (w - s) == w * w + s * s - 2 * (w * s)) by (nonlinear_arith);
    assert((m - n) * (m - n) == m * m + n * n - 2 * (m * n)) by (nonlinear_arith);
    assert((u - v) * (u - v) >= 0 && (w - s) * (w - s) >= 0 && (m - n) * (m - n) >= 0) by (
    nonlinear_arith);
    assert(lsa * lsb - d * d == (u - v) * (u - v) + (w - s) * (w - s) + (m - n) * (m - n));
}

/// A lower bound on the length of a sum, in terms of the integer square
/// roots `la`, `lb` of the two squared lengths:
/// `len_sq(a + b) >= (la - lb)^2 - 2 (la + lb) - 2`.
pub proof fn lemma_add_len_lower(a: V3, b: V3)
    ensures
        spec_len_sq(spec_add(a, b)) >= (spec_isqrt(spec_len_sq(a) as nat) - spec_isqrt(
            spec_len_sq(b) as nat,
        )) * (spec_isqrt(spec_len_sq(a) as nat) - spec_isqrt(spec_len_sq(b) as nat)) - 2 * (
        spec_isqrt(spec_len_sq(a) as nat) + spec_isqrt(spec_len_sq(b) as nat)) - 2,
{
    lemma_len_sq_nonneg(a);
    lemma_len_sq_nonneg(b);
    let lsa = spec_len_sq(a);
    let lsb = spec_len_sq(b);
    let la = spec_isqrt(lsa as nat) as int;
    let lb = spec_isqrt(lsb as nat) as int;
    lemma_isqrt_bounds(lsa as nat);
    lemma_isqrt_bounds(lsb as nat);
    lemma_cauchy_schwarz(a, b);
    let d = spec_dot(a, b);
    assert(d >= -((la + 1) * (lb + 1))) by (nonlinear_arith)
        requires
            d * d <= lsa * lsb,
            lsa < (la + 1) * (la + 1),
            lsb < (lb + 1) * (lb + 1),
            lsa >= 0,
            lsb >= 0,
            la >= 0,
            lb >= 0,
    ;
    assert(spec_len_sq(spec_add(a, b)) == lsa + 2 * d + lsb) by (nonlinear_arith)
        requires
            spec_len_sq(spec_add(a, b)) == (a.x + b.x) * (a.x + b.x) + (a.y + b.y) * (a.y + b.y)
                + (a.z + b.z) * (a.z + b.z),
            lsa == a.x * a.x + a.y * a.y + a.z * a.z,
            lsb == b.x * b.x + b.y * b.y + b.z * b.z,
            d == a.x * b.x + a.y * b.y + a.z * b.z,
    ;
    assert(lsa + 2 * d + lsb >= (la - lb) * (la - lb) - 2 * (la + lb) - 2) by (nonlinear_arith)
        requires
            d >= -((la + 1) * (lb + 1)),
            lsa >= la * la,
            lsb >= lb * lb,
            la >= 0,
            lb >= 0,
    ;
}

} // verus!

//! The spherical-surface locomotion rig.
//!
//! The player is a chain of frames — contact point, legs, torso, head,
//! camera — each holding a transform relative to its parent. Locomotion
//! (`tick`) moves only the contact point's position and orientation; look
//! control (`apply_look`) turns only the legs (yaw) and the torso
//! (pitch); head and camera are static offsets. Every update is pinned to
//! a spec-level function of the old state and the inputs, and the
//! contact point is re-clamped to the planet's sphere on every moving
//! tick — the surface-glue invariant, with its integer-rounding tolerance
//! proved below.

use vstd::prelude::*;

use crate::math::{spec_abs, spec_tdiv, spec_wrap_angle, tdiv, wrap_angle, UNIT};
use crate::quat::{
    spec_q_bounded, spec_q_identity, spec_q_mul, spec_q_renorm, spec_q_rot_arc, spec_q_rot_x,
    spec_q_rot_y, spec_q_rotate, Q4, Quat,
};
use crate::vec3::{
    spec_add, spec_bounded, spec_dist_sq, spec_len_sq, spec_scale_to_len, spec_sub, Vec3, V3,
};

verus! {

/// The cursor-lock mode: look input is applied only while `Locked`.
#[derive(Clone, Copy, PartialEq, Eq, Structural, Debug)]
pub enum LockMode {
    Free,
    Locked,
}

/// One frame's lock transitions: a capture event locks, a release event
/// frees; when both arrive in one frame the release is applied second
/// and wins.
pub open spec fn spec_lock_update(mode: LockMode, capture: bool, release: bool) -> LockMode {
    if release {
        LockMode::Free
    } else if capture {
        LockMode::Locked
    } else {
        mode
    }
}

pub fn lock_update(mode: LockMode, capture: bool, release: bool) -> (r: LockMode)
    ensures
        r == spec_lock_update(mode, capture, release),
{
    if release {
        LockMode::Free
    } else if capture {
        LockMode::Locked
    } else {
        mode
    }
}

/// Locomotion feel tuning: walk speed in milli-units per second, look
/// sensitivity in millidegrees per pointer count.
pub struct PlayerConfig {
    pub walk_speed: i128,
    pub look_sensitivity: i128,
}

impl Default for PlayerConfig {
    /// Ten units per second, and about a thousandth of a radian of look
    /// per pointer count.
    fn default() -> (r: PlayerConfig)
        ensures
            r.walk_speed == 10_000,
            r.look_sensitivity == 57,
    {
        PlayerConfig { walk_speed: 10_000, look_sensitivity: 57 }
    }
}

/// The four held direction keys.
#[derive(Clone, Copy, PartialEq, Eq, Structural, Debug)]
pub struct DirInput {
    pub forward: bool,
    pub back: bool,
    pub left: bool,
    pub right: bool,
}

impl DirInput {
    pub open spec fn none(&self) -> bool {
        !self.forward && !self.back && !self.left && !self.right
    }
}

/// The mathematical model of the rig.
pub ghost struct RigV {
    pub contact_pos: V3,
    pub contact_rot: Q4,
    pub legs_rot: Q4,
    pub torso_rot: Q4,
    pub legs_offset: V3,
    pub torso_offset: V3,
    pub head_offset: V3,
    pub camera_offset: V3,
}

/// The player rig: the contact point's world transform, the legs' and
/// torso's local orientations, and the fixed local offsets of the chain.
pub struct Rig {
    pub contact_pos: Vec3,
    pub contact_rot: Quat,
    pub legs_rot: Quat,
    pub torso_rot: Quat,
    pub legs_offset: Vec3,
    pub torso_offset: Vec3,
    pub head_offset: Vec3,
    pub camera_offset: Vec3,
}

impl View for Rig {
    type V = RigV;

    open spec fn view(&self) -> RigV {
        RigV {
            contact_pos: self.contact_pos@,
            contact_rot: self.contact_rot@,
            legs_rot: self.legs_rot@,
            torso_rot: self.torso_rot@,
            legs_offset: self.legs_offset@,
            torso_offset: self.torso_offset@,
            head_offset: self.head_offset@,
            camera_offset: self.camera_offset@,
        }
    }
}

/// Well-formedness against the planet: unit-scale orientations, and the
/// contact point within one radius of the sphere (coordinatewise).
pub open spec fn spec_rig_wf(r: RigV, center: V3, radius: int) -> bool {
    &&& spec_q_bounded(r.contact_rot, UNIT as int)
    &&& spec_q_bounded(r.legs_rot, UNIT as int)
    &&& spec_q_bounded(r.torso_rot, UNIT as int)
    &&& spec_bounded(spec_sub(r.contact_pos, center), radius)
}

/// The legs' world orientation: the contact frame's orientation composed
/// with the legs' local yaw.
pub open spec fn spec_world_legs(r: RigV) -> Q4 {
    spec_q_mul(r.contact_rot, r.legs_rot)
}

/// The movement vector before normalization: the sum of the legs' world
/// forward/back/left/right directions selected by the held keys.
pub open spec fn spec_move_sum(r: RigV, keys: DirInput) -> V3 {
    let wr = spec_world_legs(r);
    let fwd = spec_q_rotate(wr, V3 { x: 0, y: 0, z: -(UNIT as int) });
    let back = spec_q_rotate(wr, V3 { x: 0, y: 0, z: UNIT as int });
    let left = spec_q_rotate(wr, V3 { x: -(UNIT as int), y: 0, z: 0 });
    let right = spec_q_rotate(wr, V3 { x: UNIT as int, y: 0, z: 0 });
    let s0 = V3 { x: 0, y: 0, z: 0 };
    let s1 = if keys.forward {
        spec_add(s0, fwd)
    } else {
        s0
    };
    let s2 = if keys.back {
        spec_add(s1, back)
    } else {
        s1
    };
    let s3 = if keys.left {
        spec_add(s2, left)
    } else {
        s2
    };
    if keys.right {
        spec_add(s3, right)
    } else {
        s3
    }
}

/// One locomotion step. With no effective input, or with the tentative
/// position degenerating to the planet's center (a transient numeric
/// case, treated as a no-op per the error model), the rig is unchanged.
/// Otherwise: move along the normalized key sum, re-clamp the contact
/// point to the sphere, and re-orient the contact frame by the rotation
/// carrying the legs' previous world up onto the new radial direction —
/// in that order.
#[verifier::opaque]
pub open spec fn spec_tick(
    r: RigV,
    keys: DirInput,
    walk_speed: int,
    dt_ms: int,
    center: V3,
    radius: int,
) -> RigV {
    let sum = spec_move_sum(r, keys);
    if spec_len_sq(sum) == 0 {
        r
    } else {
        let t = spec_tdiv(walk_speed * dt_ms, 1000);
        let movement = spec_scale_to_len(sum, t);
        let tentative = spec_add(r.contact_pos, movement);
        let rel = spec_sub(tentative, center);
        if spec_len_sq(rel) == 0 {
            r
        } else {
            let clamped = spec_scale_to_len(rel, radius);
            let newpos = spec_add(center, clamped);
            let wr = spec_world_legs(r);
            let up_old = spec_scale_to_len(
                spec_q_rotate(wr, V3 { x: 0, y: UNIT as int, z: 0 }),
                UNIT as int,
            );
            let up_new = spec_scale_to_len(clamped, UNIT as int);
            let arc = spec_q_rot_arc(up_old, up_new);
            let newrot = spec_q_renorm(spec_q_mul(arc, r.contact_rot));
            RigV { contact_pos: newpos, contact_rot: newrot, ..r }
        }
    }
}

/// One look step. Only the `Locked` mode applies input; zero summed
/// deltas are a no-op. The summed horizontal delta, scaled by the
/// sensitivity (millidegrees per count), yaws the legs about their
/// vertical axis; the vertical delta pitches the torso about its lateral
/// axis. Movement direction derives from the legs alone, so pitch never
/// changes it. A zero wrapped angle composes the identity and is skipped
/// outright.
pub open spec fn spec_apply_look(
    r: RigV,
    mode: LockMode,
    dx: int,
    dy: int,
    sens: int,
) -> RigV {
    if mode != LockMode::Locked || (dx == 0 && dy == 0) {
        r
    } else {
        let yaw = spec_wrap_angle(dx * sens);
        let pitch = spec_wrap_angle(dy * sens);
        let legs = if yaw != 0 {
            spec_q_renorm(spec_q_mul(spec_q_rot_y(yaw), r.legs_rot))
        } else {
            r.legs_rot
        };
        let torso = if pitch != 0 {
            spec_q_renorm(spec_q_mul(spec_q_rot_x(pitch), r.torso_rot))
        } else {
            r.torso_rot
        };
        RigV { legs_rot: legs, torso_rot: torso, ..r }
    }
}

/// The negated running sum of pointer-motion deltas: every event of a
/// frame counts, not just the last.
pub open spec fn spec_neg_sum(s: Seq<(i64, i64)>) -> (int, int)
    decreases s.len(),
{
    if s.len() == 0 {
        (0, 0)
    } else {
        let p = spec_neg_sum(s.drop_last());
        (p.0 - s.last().0 as int, p.1 - s.last().1 as int)
    }
}

/// Sum a frame's pointer-motion deltas (negated, as the look control
/// consumes them).
pub fn sum_deltas(deltas: &Vec<(i64, i64)>) -> (r: (i128, i128))
    requires
        deltas@.len() <= 1_000_000,
    ensures
        r.0 == spec_neg_sum(deltas@).0,
        r.1 == spec_neg_sum(deltas@).1,
        spec_abs(r.0 as int) <= deltas@.len() * 0x8000_0000_0000_0000,
        spec_abs(r.1 as int) <= deltas@.len() * 0x8000_0000_0000_0000,
{
    let mut sx: i128 = 0;
    let mut sy: i128 = 0;
    let mut i: usize = 0;
    while i < deltas.len()
        invariant
            i <= deltas@.len(),
            deltas@.len() <= 1_000_000,
            sx == spec_neg_sum(deltas@.take(i as int)).0,
            sy == spec_neg_sum(deltas@.take(i as int)).1,
            spec_abs(sx as int) <= i * 0x8000_0000_0000_0000,
            spec_abs(sy as int) <= i * 0x8000_0000_0000_0000,
        decreases deltas@.len() - i,
    {
        let (dx, dy) = deltas[i];
        sx = sx - dx as i128;
        sy = sy - dy as i128;
        i = i + 1;
        proof {
            assert(deltas@.take(i as int).drop_last() =~= deltas@.take(i as int - 1));
            assert(deltas@.take(i as int).last() == deltas@[i as int - 1]);
        }
    }
    proof {
        assert(deltas@.take(deltas@.len() as int) =~= deltas@);
    }
    (sx, sy)
}

impl Rig {
    /// The rig at session start: contact resting on top of the planet,
    /// every orientation the identity, and the fixed chain offsets (legs
    /// half a unit up, torso one unit, head 0.8, camera seven units
    /// back), all in milli-units.
    pub fn new(planet_pos: &Vec3, planet_radius: i128) -> (r: Rig)
        requires
            spec_bounded(planet_pos@, 1_000_000_000_000),
            1 <= planet_radius <= 1_000_000_000_000,
        ensures
            r@.contact_pos == spec_add(
                planet_pos@,
                V3 { x: 0, y: planet_radius as int, z: 0 },
            ),
            r@.contact_rot == spec_q_identity(),
            r@.legs_rot == spec_q_identity(),
            r@.torso_rot == spec_q_identity(),
            r@.legs_offset == (V3 { x: 0, y: 500, z: 0 }),
            r@.torso_offset == (V3 { x: 0, y: 1000, z: 0 }),
            r@.head_offset == (V3 { x: 0, y: 800, z: 0 }),
            r@.camera_offset == (V3 { x: 0, y: 0, z: 7000 }),
            spec_rig_wf(r@, planet_pos@, planet_radius as int),
            spec_dist_sq(r@.contact_pos, planet_pos@) == planet_radius * planet_radius,
    {
        let r = Rig {
            contact_pos: Vec3::new(planet_pos.x, planet_pos.y + planet_radius, planet_pos.z),
            contact_rot: Quat::identity(),
            legs_rot: Quat::identity(),
            torso_rot: Quat::identity(),
            legs_offset: Vec3::new(0, 500, 0),
            torso_offset: Vec3::new(0, 1000, 0),
            head_offset: Vec3::new(0, 800, 0),
            camera_offset: Vec3::new(0, 0, 7000),
        };
        proof {
            assert(spec_dist_sq(r@.contact_pos, planet_pos@) == (planet_radius as int) * (
            planet_radius as int)) by (nonlinear_arith)
                requires
                    spec_dist_sq(r@.contact_pos, planet_pos@) == 0 * 0 + (planet_radius as int)
                        * (planet_radius as int) + 0 * 0,
            ;
        }
        r
    }

    /// One locomotion step; see `spec_tick`. The contact point is the
    /// only link whose position changes, and only its orientation is
    /// re-aligned; legs, torso and all offsets are untouched.
    #[verifier::rlimit(100)]
    #[verifier::spinoff_prover]
    pub fn tick(
        &mut self,
        keys: DirInput,
        walk_speed: i128,
        dt_ms: i128,
        center: &Vec3,
        radius: i128,
    )
        requires
            spec_rig_wf(old(self)@, center@, radius as int),
            spec_bounded(center@, 1_000_000_000_000),
            1 <= radius <= 1_000_000_000_000,
            0 <= walk_speed <= 1_000_000_000,
            0 <= dt_ms <= 1_000_000_000,
        ensures
            final(self)@ == spec_tick(
                old(self)@,
                keys,
                walk_speed as int,
                dt_ms as int,
                center@,
                radius as int,
            ),
            spec_rig_wf(final(self)@, center@, radius as int),
            keys.none() ==> final(self)@ == old(self)@,
    {
        let ghost r0 = self@;
        let wr = self.contact_rot.mul(&self.legs_rot);
        let fwd = wr.rotate(&Vec3::new(0, 0, -UNIT), Ghost(UNIT as int));
        let back = wr.rotate(&Vec3::new(0, 0, UNIT), Ghost(UNIT as int));
        let left = wr.rotate(&Vec3::new(-UNIT, 0, 0), Ghost(UNIT as int));
        let right = wr.rotate(&Vec3::new(UNIT, 0, 0), Ghost(UNIT as int));
        let mut sum = Vec3::new(0, 0, 0);
        if keys.forward {
            sum = sum.add(&fwd);
        }
        if keys.back {
            sum = sum.add(&back);
        }
        if keys.left {
            sum = sum.add(&left);
        }
        if keys.right {
            sum = sum.add(&right);
        }
        proof {
            assert(sum@ == spec_move_sum(r0, keys));
        }
        let sum_ls = sum.len_sq();
        if sum_ls != 0 {
            proof {
                crate::math::lemma_abs_mul_le(walk_speed as int, dt_ms as int, 1_000_000_000,
                    1_000_000_000);
            }
            let t = tdiv(walk_speed * dt_ms, 1000);
            proof {
                crate::math::lemma_tdiv_nonneg(walk_speed as int * dt_ms as int, 1000);
            }
            let movement = sum.scale_to_len(t);
            let tentative = self.contact_pos.add(&movement);
            let rel = tentative.sub(center);
            let rel_ls = rel.len_sq();
            proof {
                let sumv = spec_move_sum(r0, keys);
                let tv = spec_tdiv(walk_speed as int * dt_ms as int, 1000);
                let movementv = spec_scale_to_len(sumv, tv);
                let tentativev = spec_add(r0.contact_pos, movementv);
                let relv = spec_sub(tentativev, center@);
                assert(sum@ == sumv && t as int == tv && movement@ == movementv && tentative@
                    == tentativev && rel@ == relv);
            }
            if rel_ls != 0 {
                let clamped = rel.scale_to_len(radius);
                let newpos = center.add(&clamped);
                let up_raw = wr.rotate(&Vec3::new(0, UNIT, 0), Ghost(UNIT as int));
                let up_old = up_raw.scale_to_len(UNIT);
                let up_new = clamped.scale_to_len(UNIT);
                let arc = Quat::rot_arc(&up_old, &up_new);
                let newrot = arc.mul(&self.contact_rot).renorm();
                proof {
                    let clampedv = spec_scale_to_len(rel@, radius as int);
                    assert(clamped@ == clampedv);
                    assert(newpos@ == spec_add(center@, clampedv));
                    let wrv = spec_world_legs(r0);
                    assert(wr@ == wrv);
                    let up_oldv = spec_scale_to_len(
                        spec_q_rotate(wrv, V3 { x: 0, y: UNIT as int, z: 0 }),
                        UNIT as int,
                    );
                    assert(up_old@ == up_oldv && up_new@ == spec_scale_to_len(
                        clampedv,
                        UNIT as int,
                    ));
                    assert(arc@ == spec_q_rot_arc(up_oldv, up_new@));
                    assert(newrot@ == spec_q_renorm(spec_q_mul(arc@, r0.contact_rot)));
                }
                self.contact_pos = newpos;
                self.contact_rot = newrot;
                proof {
                    reveal(spec_tick);
                    assert(self@ == spec_tick(r0, keys, walk_speed as int, dt_ms as int,
                        center@, radius as int));
                    assert(spec_sub(self@.contact_pos, center@) == clamped@);
                    assert(spec_rig_wf(self@, center@, radius as int));
                }
            } else {
                proof {
                    reveal(spec_tick);
                    assert(self@ == spec_tick(r0, keys, walk_speed as int, dt_ms as int,
                        center@, radius as int));
                }
            }
        } else {
            proof {
                reveal(spec_tick);
                assert(self@ == spec_tick(r0, keys, walk_speed as int, dt_ms as int, center@,
                    radius as int));
            }
        }
    }

    /// One look step; see `spec_apply_look`. While the cursor-lock mode
    /// is `Free` the rig is unchanged whatever the deltas.
    pub fn apply_look(&mut self, mode: LockMode, dx: i128, dy: i128, sens: i128)
        requires
            spec_q_bounded(old(self)@.legs_rot, UNIT as int),
            spec_q_bounded(old(self)@.torso_rot, UNIT as int),
            spec_abs(dx as int) <= 1_000_000_000_000,
            spec_abs(dy as int) <= 1_000_000_000_000,
            0 <= sens <= 1_000_000,
        ensures
            final(self)@ == spec_apply_look(old(self)@, mode, dx as int, dy as int, sens as int),
            spec_q_bounded(final(self)@.legs_rot, UNIT as int),
            spec_q_bounded(final(self)@.torso_rot, UNIT as int),
            final(self)@.contact_pos == old(self)@.contact_pos,
            final(self)@.contact_rot == old(self)@.contact_rot,
            mode == LockMode::Free ==> final(self)@ == old(self)@,
    {
        if mode == LockMode::Locked && (dx != 0 || dy != 0) {
            proof {
                crate::math::lemma_abs_mul_le(dx as int, sens as int, 1_000_000_000_000,
                    1_000_000);
                crate::math::lemma_abs_mul_le(dy as int, sens as int, 1_000_000_000_000,
                    1_000_000);
            }
            let yaw = wrap_angle(dx * sens);
            let pitch = wrap_angle(dy * sens);
            if yaw != 0 {
                self.legs_rot = Quat::rot_y(yaw).mul(&self.legs_rot).renorm();
            }
            if pitch != 0 {
                self.torso_rot = Quat::rot_x(pitch).mul(&self.torso_rot).renorm();
            }
        }
    }
}

/// Surface glue: across any sequence of ticks the contact point stays on
/// the planet's sphere, up to the rounding of the integer clamp. One
/// step: if the squared distance to the center starts within
/// `[R^2 - 8R, R^2 + 33R]`, the radius is at least `10000` milli-units,
/// and the step length is at most half the radius, then after the tick
/// the squared distance lies within the same band — so, by induction,
/// it does after every tick of such a sequence, from a start on the
/// sphere (`Rig::new` gives distance exactly `R`).
pub proof fn lemma_tick_glue(
    r: RigV,
    keys: DirInput,
    walk_speed: int,
    dt_ms: int,
    center: V3,
    radius: int,
)
    requires
        radius >= 10_000,
        walk_speed >= 0,
        dt_ms >= 0,
        2 * spec_tdiv(walk_speed * dt_ms, 1000) <= radius,
        radius * radius - 8 * radius <= spec_dist_sq(r.contact_pos, center),
        spec_dist_sq(r.contact_pos, center) <= radius * radius + 33 * radius,
    ensures
        ({
            let p = spec_tick(r, keys, walk_speed, dt_ms, center, radius).contact_pos;
            radius * radius - 8 * radius <= spec_dist_sq(p, center) <= radius * radius + 33
                * radius
        }),
{
    reveal(spec_tick);
    let rr = radius;
    let sum = spec_move_sum(r, keys);
    if spec_len_sq(sum) != 0 {
        let t = spec_tdiv(walk_speed * dt_ms, 1000);
        crate::math::lemma_tdiv_nonneg(walk_speed * dt_ms, 1000);
        assert(walk_speed * dt_ms >= 0) by (nonlinear_arith)
            requires
                walk_speed >= 0,
                dt_ms >= 0,
        ;
        let movement = spec_scale_to_len(sum, t);
        // Coordinates of the movement are bounded by t.
        let ls = spec_len_sq(sum);
        assert(sum.x * sum.x <= ls && sum.y * sum.y <= ls && sum.z * sum.z <= ls && ls > 0) by (
        nonlinear_arith)
            requires
                ls == sum.x * sum.x + sum.y * sum.y + sum.z * sum.z,
                ls != 0,
        ;
        crate::vec3::lemma_scale_coord_le(sum.x, t, ls);
        crate::vec3::lemma_scale_coord_le(sum.y, t, ls);
        crate::vec3::lemma_scale_coord_le(sum.z, t, ls);
        assert(spec_abs(movement.x) <= t && spec_abs(movement.y) <= t && spec_abs(movement.z)
            <= t);
        let a = spec_sub(r.contact_pos, center);
        let tentative = spec_add(r.contact_pos, movement);
        let rel = spec_sub(tentative, center);
        assert(rel == spec_add(a, movement));
        let d_old = spec_len_sq(a);
        assert(d_old == spec_dist_sq(r.contact_pos, center));
        let la = crate::math::spec_isqrt(d_old as nat) as int;
        crate::math::lemma_isqrt_bounds(d_old as nat);
        // la is within [R - 5, R + 16].
        assert((rr - 5) * (rr - 5) <= rr * rr - 8 * rr) by (nonlinear_arith)
            requires
                rr >= 13,
        ;
        crate::math::lemma_isqrt_square((rr - 5) as nat);
        crate::math::lemma_isqrt_monotone(((rr - 5) * (rr - 5)) as nat, d_old as nat);
        assert(la >= rr - 5);
        assert(la <= rr + 16) by (nonlinear_arith)
            requires
                la * la <= d_old,
                d_old <= rr * rr + 33 * rr,
                la >= 0,
                rr >= 1,
        ;
        // lb, the length of the movement, is at most 7R/8.
        let lm = spec_len_sq(movement);
        crate::vec3::lemma_len_sq_nonneg(movement);
        let lb = crate::math::spec_isqrt(lm as nat) as int;
        crate::math::lemma_isqrt_bounds(lm as nat);
        assert(lm <= 3 * (t * t)) by (nonlinear_arith)
            requires
                lm == movement.x * movement.x + movement.y * movement.y + movement.z
                    * movement.z,
                spec_abs(movement.x) <= t,
                spec_abs(movement.y) <= t,
                spec_abs(movement.z) <= t,
                t >= 0,
        ;
        assert(8 * lb <= 7 * rr) by (nonlinear_arith)
            requires
                lb * lb <= lm,
                lm <= 3 * (t * t),
                2 * t <= rr,
                t >= 0,
                lb >= 0,
        ;
        crate::vec3::lemma_add_len_lower(a, movement);
        assert(spec_len_sq(rel) >= (la - lb) * (la - lb) - 2 * (la + lb) - 2);
        let mq = rr / 16;
        assert(16 * mq <= rr && rr <= 16 * mq + 15 && mq >= 625) by {
            vstd::arithmetic::div_mod::lemma_fundamental_div_mod(rr, 16);
            vstd::arithmetic::div_mod::lemma_mod_bound(rr, 16);
            vstd::arithmetic::div_mod::lemma_div_is_ordered(10_000, rr, 16);
        }
        assert(8 * (la - lb) >= rr - 40);
        assert(256 * ((la - lb) * (la - lb)) >= 4 * ((rr - 40) * (rr - 40))) by (
        nonlinear_arith)
            requires
                8 * (la - lb) >= rr - 40,
                rr >= 10_000,
        ;
        assert(4 * ((rr - 40) * (rr - 40)) - 512 * (la + lb) - 512 >= rr * rr) by (
        nonlinear_arith)
            requires
                la <= rr + 16,
                8 * lb <= 7 * rr,
                lb >= 0,
                la >= 0,
                rr >= 10_000,
        ;
        assert(256 * (mq * mq) <= rr * rr) by (nonlinear_arith)
            requires
                16 * mq <= rr,
                mq >= 0,
        ;
        assert(256 * spec_len_sq(rel) >= 256 * ((la - lb) * (la - lb)) - 512 * (la + lb)
            - 512);
        assert(spec_len_sq(rel) >= mq * mq);
        assert(spec_len_sq(rel) > 0) by (nonlinear_arith)
            requires
                spec_len_sq(rel) >= mq * mq,
                mq >= 625,
        ;
        let clamped = spec_scale_to_len(rel, rr);
        let newpos = spec_add(center, clamped);
        assert(spec_sub(newpos, center) == clamped);
        crate::vec3::lemma_stl_len_lower(rel, rr);
        crate::vec3::lemma_stl_len_upper(rel, rr, mq);
        let ss = spec_len_sq(clamped);
        assert(ss >= rr * rr - 8 * rr);
        // From mq * ss <= mq * R^2 + 2 R^2 and 16 mq >= R - 15, conclude
        // ss <= R^2 + 33 R.
        if ss > rr * rr {
            assert(mq * (ss - rr * rr) <= 2 * (rr * rr)) by (nonlinear_arith)
                requires
                    mq * ss <= mq * (rr * rr) + 2 * (rr * rr),
            ;
            assert((rr - 15) * (ss - rr * rr) <= 16 * (mq * (ss - rr * rr))) by (
            nonlinear_arith)
                requires
                    16 * mq >= rr - 15,
                    ss - rr * rr > 0,
            ;
            assert(ss <= rr * rr + 33 * rr) by (nonlinear_arith)
                requires
                    (rr - 15) * (ss - rr * rr) <= 32 * (rr * rr),
                    ss - rr * rr > 0,
                    rr >= 10_000,
            ;
        }
        assert(spec_dist_sq(spec_tick(r, keys, walk_speed, dt_ms, center, radius).contact_pos,
            center) == ss);
    }
}

/// No-input idempotence: a tick with every direction input off leaves
/// the rig exactly unchanged, whatever the elapsed time.
pub proof fn lemma_tick_no_input(
    r: RigV,
    keys: DirInput,
    walk_speed: int,
    dt_ms: int,
    center: V3,
    radius: int,
)
    requires
        keys.none(),
    ensures
        spec_tick(r, keys, walk_speed, dt_ms, center, radius) == r,
{
    reveal(spec_tick);
    let sum = spec_move_sum(r, keys);
    assert(sum == (V3 { x: 0, y: 0, z: 0 }));
    crate::vec3::lemma_len_sq_nonneg(sum);
}

/// Look gating: while the cursor-lock mode is `Free`, a look step
/// changes nothing, whatever the deltas and sensitivity.
pub proof fn lemma_look_gated(r: RigV, dx: int, dy: int, sens: int)
    ensures
        spec_apply_look(r, LockMode::Free, dx, dy, sens) == r,
{
}

} // verus!

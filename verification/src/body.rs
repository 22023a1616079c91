//! One rigid body: its record, its abstract snapshot, and the pure
//! transition functions that every store operation is specified by.

use vstd::prelude::*;
use crate::math::{
    Vec3, Quat, RECIP_UNIT, vec3_zero, is_zero_vec, quat_identity, quat_is_zero, vadd, vsub,
    scaled_add, cross,
};

verus! {

/// The kind of a rigid body.
///
/// Static bodies never move under forces; Kinematic bodies move only via
/// externally supplied target poses; Dynamic bodies are advanced by the
/// integrator under forces and impulses.
#[derive(Clone, Copy, PartialEq, Eq, Structural, Debug)]
pub enum BodyType {
    Static,
    Dynamic,
    Kinematic,
}

/// A collider attached to a body: the collider's handle in the collider
/// set, together with the mass and inertia it contributes to the body.
#[derive(Clone, Copy, PartialEq, Eq, Structural, Debug)]
pub struct AttachedCollider {
    pub collider: u64,
    pub mass: u64,
    pub inertia: u64,
}

/// One rigid-body record, owned by the store.
pub struct RigidBody {
    pub body_type: BodyType,
    /// Current world-space pose: translation part.
    pub translation: Vec3,
    /// Current world-space pose: rotation part; never the zero quaternion.
    pub rotation: Quat,
    /// Pose forecast for the next timestep: translation part. For a
    /// Kinematic body this is the externally set target; for other bodies
    /// it merely keeps its last value (initially the initial pose).
    pub next_translation: Vec3,
    /// Pose forecast for the next timestep: rotation part.
    pub next_rotation: Quat,
    pub linvel: Vec3,
    pub angvel: Vec3,
    /// Force accumulator, summed per step and cleared by the integrator.
    pub force: Vec3,
    /// Torque accumulator, summed per step and cleared by the integrator.
    pub torque: Vec3,
    /// Total mass, the sum of the attached colliders' contributions.
    pub mass: u64,
    /// Total principal inertia, summed from the attached colliders.
    pub inertia: u64,
    /// Fixed-point inverse mass: `RECIP_UNIT / mass`, or 0 for a massless body.
    pub inv_mass: i64,
    /// Fixed-point inverse inertia: `RECIP_UNIT / inertia`, or 0.
    pub inv_inertia: i64,
    /// True while the body is excluded from integration and from
    /// accumulator application.
    pub sleeping: bool,
    pub colliders: Vec<AttachedCollider>,
}

/// The abstract value of a [`RigidBody`]: the same fields, with the
/// collider list as a sequence.
#[verifier::ext_equal]
pub struct BodySnap {
    pub body_type: BodyType,
    pub translation: Vec3,
    pub rotation: Quat,
    pub next_translation: Vec3,
    pub next_rotation: Quat,
    pub linvel: Vec3,
    pub angvel: Vec3,
    pub force: Vec3,
    pub torque: Vec3,
    pub mass: u64,
    pub inertia: u64,
    pub inv_mass: i64,
    pub inv_inertia: i64,
    pub sleeping: bool,
    pub colliders: Seq<AttachedCollider>,
}

impl View for RigidBody {
    type V = BodySnap;

    open spec fn view(&self) -> BodySnap {
        BodySnap {
            body_type: self.body_type,
            translation: self.translation,
            rotation: self.rotation,
            next_translation: self.next_translation,
            next_rotation: self.next_rotation,
            linvel: self.linvel,
            angvel: self.angvel,
            force: self.force,
            torque: self.torque,
            mass: self.mass,
            inertia: self.inertia,
            inv_mass: self.inv_mass,
            inv_inertia: self.inv_inertia,
            sleeping: self.sleeping,
            colliders: self.colliders@,
        }
    }
}

/// The fixed-point reciprocal stored for a mass or inertia total: zero for
/// a massless body, `RECIP_UNIT / m` (truncated) otherwise.
pub open spec fn recip_of(m: u64) -> i64 {
    if m == 0 {
        0
    } else {
        (RECIP_UNIT as int / m as int) as i64
    }
}

/// Sum of the mass contributions of a collider sequence.
pub open spec fn mass_sum(cs: Seq<AttachedCollider>) -> int
    decreases cs.len(),
{
    if cs.len() == 0 {
        0
    } else {
        cs[0].mass + mass_sum(cs.drop_first())
    }
}

/// Sum of the inertia contributions of a collider sequence.
pub open spec fn inertia_sum(cs: Seq<AttachedCollider>) -> int
    decreases cs.len(),
{
    if cs.len() == 0 {
        0
    } else {
        cs[0].inertia + inertia_sum(cs.drop_first())
    }
}

/// Well-formedness of one body record: mass properties are derived from
/// the attached colliders, the rotation values are non-degenerate, and a
/// Static body carries no velocity and no accumulated force or torque.
pub open spec fn body_wf(b: BodySnap) -> bool {
    &&& b.mass == mass_sum(b.colliders)
    &&& b.inertia == inertia_sum(b.colliders)
    &&& b.inv_mass == recip_of(b.mass)
    &&& b.inv_inertia == recip_of(b.inertia)
    &&& !quat_is_zero(b.rotation)
    &&& !quat_is_zero(b.next_rotation)
    &&& b.body_type is Static ==> is_zero_vec(b.linvel) && is_zero_vec(b.angvel)
        && is_zero_vec(b.force) && is_zero_vec(b.torque)
}

/// The state of a body freshly inserted into the store: default pose, zero
/// velocity, no colliders, awake.
pub open spec fn fresh_body(t: BodyType) -> BodySnap {
    BodySnap {
        body_type: t,
        translation: vec3_zero(),
        rotation: quat_identity(),
        next_translation: vec3_zero(),
        next_rotation: quat_identity(),
        linvel: vec3_zero(),
        angvel: vec3_zero(),
        force: vec3_zero(),
        torque: vec3_zero(),
        mass: 0,
        inertia: 0,
        inv_mass: 0,
        inv_inertia: 0,
        sleeping: false,
        colliders: Seq::empty(),
    }
}

/// The sleep state after an operation carrying a wake-up flag: waking
/// clears the flag, otherwise the state is kept.
pub open spec fn sleep_after(sleeping: bool, wake_up: bool) -> bool {
    sleeping && !wake_up
}

/// The body after the wake-up flag of an operation has been applied.
pub open spec fn woken(b: BodySnap, wake_up: bool) -> BodySnap {
    BodySnap { sleeping: sleep_after(b.sleeping, wake_up), ..b }
}

/// The body as the integrator parks it: asleep, everything else kept.
pub open spec fn put_to_sleep(b: BodySnap) -> BodySnap {
    BodySnap { sleeping: true, ..b }
}

/// The body after an integration step has consumed its accumulators:
/// force and torque reset to zero, everything else kept.
pub open spec fn cleared(b: BodySnap) -> BodySnap {
    BodySnap { force: vec3_zero(), torque: vec3_zero(), ..b }
}

/// Does a force-applying call with this wake-up flag reach the body's
/// accumulators and velocities? Only Dynamic bodies take forces, and a
/// sleeping body is excluded unless the call wakes it first.
pub open spec fn accepts_forces(b: BodySnap, wake_up: bool) -> bool {
    b.body_type is Dynamic && (wake_up || !b.sleeping)
}

pub open spec fn with_translation(b: BodySnap, p: Vec3) -> BodySnap {
    BodySnap { translation: p, ..b }
}

pub open spec fn with_rotation(b: BodySnap, q: Quat) -> BodySnap {
    BodySnap { rotation: q, ..b }
}

pub open spec fn with_next_translation(b: BodySnap, p: Vec3) -> BodySnap {
    BodySnap { next_translation: p, ..b }
}

pub open spec fn with_next_rotation(b: BodySnap, q: Quat) -> BodySnap {
    BodySnap { next_rotation: q, ..b }
}

/// The body after `apply_force`: wake first, then add to the force
/// accumulator if the call reaches it.
pub open spec fn after_force(b: BodySnap, f: Vec3, wake_up: bool) -> BodySnap {
    if accepts_forces(b, wake_up) {
        BodySnap { force: vadd(b.force, f), ..woken(b, wake_up) }
    } else {
        woken(b, wake_up)
    }
}

/// The body after `apply_impulse`: wake first, then change the linear
/// velocity by `j * inv_mass` if the call reaches it.
pub open spec fn after_impulse(b: BodySnap, j: Vec3, wake_up: bool) -> BodySnap {
    if accepts_forces(b, wake_up) {
        BodySnap { linvel: scaled_add(b.linvel, j, b.inv_mass), ..woken(b, wake_up) }
    } else {
        woken(b, wake_up)
    }
}

/// The body after `apply_torque`: wake first, then add to the torque
/// accumulator if the call reaches it.
pub open spec fn after_torque(b: BodySnap, t: Vec3, wake_up: bool) -> BodySnap {
    if accepts_forces(b, wake_up) {
        BodySnap { torque: vadd(b.torque, t), ..woken(b, wake_up) }
    } else {
        woken(b, wake_up)
    }
}

/// The body after `apply_torque_impulse`: wake first, then change the
/// angular velocity by `t * inv_inertia` if the call reaches it.
pub open spec fn after_torque_impulse(b: BodySnap, t: Vec3, wake_up: bool) -> BodySnap {
    if accepts_forces(b, wake_up) {
        BodySnap { angvel: scaled_add(b.angvel, t, b.inv_inertia), ..woken(b, wake_up) }
    } else {
        woken(b, wake_up)
    }
}

/// The lever arm of a world-space point about the body's center of mass
/// (taken as its translation).
pub open spec fn lever_arm(b: BodySnap, point: Vec3) -> Vec3 {
    vsub(point, b.translation)
}

/// The body after `apply_force_at_point`: the force decomposes into a
/// center-of-mass linear part and a torque `lever x f`.
pub open spec fn after_force_at_point(b: BodySnap, f: Vec3, point: Vec3, wake_up: bool) -> BodySnap {
    if accepts_forces(b, wake_up) {
        BodySnap {
            force: vadd(b.force, f),
            torque: vadd(b.torque, cross(lever_arm(b, point), f)),
            ..woken(b, wake_up)
        }
    } else {
        woken(b, wake_up)
    }
}

/// The body after `apply_impulse_at_point`: the impulse decomposes into a
/// linear velocity change `j * inv_mass` and an angular velocity change
/// `(lever x j) * inv_inertia`.
pub open spec fn after_impulse_at_point(b: BodySnap, j: Vec3, point: Vec3, wake_up: bool) -> BodySnap {
    if accepts_forces(b, wake_up) {
        BodySnap {
            linvel: scaled_add(b.linvel, j, b.inv_mass),
            angvel: scaled_add(b.angvel, cross(lever_arm(b, point), j), b.inv_inertia),
            ..woken(b, wake_up)
        }
    } else {
        woken(b, wake_up)
    }
}

/// The next sleep state of a body, as pure logic: an operation that
/// carries `wake_up == true` forces the body awake, any other operation
/// leaves the sleep state alone.
pub fn next_sleep_state(sleeping: bool, wake_up: bool) -> (r: bool)
    ensures
        r == sleep_after(sleeping, wake_up),
{
    sleeping && !wake_up
}

/// The collider handles of a collider sequence, in attachment order.
pub open spec fn collider_ids(cs: Seq<AttachedCollider>) -> Seq<u64> {
    Seq::new(cs.len(), |i: int| cs[i].collider)
}

/// Does some attached collider carry this handle?
pub open spec fn has_collider(cs: Seq<AttachedCollider>, id: u64) -> bool {
    exists|i: int| 0 <= i < cs.len() && cs[i].collider == id
}

/// The position of the first attached collider carrying this handle;
/// meaningful when `has_collider(cs, id)` holds.
pub open spec fn first_collider_index(cs: Seq<AttachedCollider>, id: u64) -> int
    decreases cs.len(),
{
    if cs.len() == 0 {
        0
    } else if cs[0].collider == id {
        0
    } else {
        1 + first_collider_index(cs.drop_first(), id)
    }
}

/// The body after a collider is attached: the attachment is recorded and
/// the mass properties are recomputed.
pub open spec fn with_collider(b: BodySnap, c: AttachedCollider) -> BodySnap {
    let m = (b.mass + c.mass) as u64;
    let n = (b.inertia + c.inertia) as u64;
    BodySnap {
        colliders: b.colliders.push(c),
        mass: m,
        inertia: n,
        inv_mass: recip_of(m),
        inv_inertia: recip_of(n),
        ..b
    }
}

/// The body after the first collider carrying `id` is detached, with the
/// mass properties recomputed; meaningful when the body has one.
pub open spec fn without_collider(b: BodySnap, id: u64) -> BodySnap {
    let i = first_collider_index(b.colliders, id);
    let c = b.colliders[i];
    let m = (b.mass - c.mass) as u64;
    let n = (b.inertia - c.inertia) as u64;
    BodySnap {
        colliders: b.colliders.remove(i),
        mass: m,
        inertia: n,
        inv_mass: recip_of(m),
        inv_inertia: recip_of(n),
        ..b
    }
}

/// The stored fixed-point reciprocal of a mass or inertia total.
pub fn recip(m: u64) -> (r: i64)
    ensures
        r == recip_of(m),
{
    if m == 0 {
        0
    } else {
        let q: u64 = RECIP_UNIT / m;
        proof {
            assert(q <= RECIP_UNIT) by (nonlinear_arith)
                requires
                    q == RECIP_UNIT as int / m as int,
                    m >= 1,
            ;
        }
        q as i64
    }
}

/// The collider sums are never negative.
pub proof fn lemma_sums_nonneg(cs: Seq<AttachedCollider>)
    ensures
        mass_sum(cs) >= 0,
        inertia_sum(cs) >= 0,
    decreases cs.len(),
{
    if cs.len() > 0 {
        lemma_sums_nonneg(cs.drop_first());
    }
}

/// Attaching one collider adds its contributions to the sums.
pub proof fn lemma_sums_push(cs: Seq<AttachedCollider>, c: AttachedCollider)
    ensures
        mass_sum(cs.push(c)) == mass_sum(cs) + c.mass,
        inertia_sum(cs.push(c)) == inertia_sum(cs) + c.inertia,
    decreases cs.len(),
{
    if cs.len() == 0 {
        assert(cs.push(c)[0] == c);
        assert(cs.push(c).drop_first() =~= Seq::<AttachedCollider>::empty());
        assert(mass_sum(Seq::<AttachedCollider>::empty()) == 0);
        assert(inertia_sum(Seq::<AttachedCollider>::empty()) == 0);
    } else {
        assert(cs.push(c)[0] == cs[0]);
        assert(cs.push(c).drop_first() =~= cs.drop_first().push(c));
        lemma_sums_push(cs.drop_first(), c);
    }
}

/// Detaching one collider subtracts its contributions from the sums.
pub proof fn lemma_sums_remove(cs: Seq<AttachedCollider>, i: int)
    requires
        0 <= i < cs.len(),
    ensures
        mass_sum(cs.remove(i)) == mass_sum(cs) - cs[i].mass,
        inertia_sum(cs.remove(i)) == inertia_sum(cs) - cs[i].inertia,
    decreases cs.len(),
{
    if i == 0 {
        assert(cs.remove(0) =~= cs.drop_first());
    } else {
        assert(cs.remove(i).drop_first() =~= cs.drop_first().remove(i - 1));
        lemma_sums_remove(cs.drop_first(), i - 1);
    }
}

/// `first_collider_index` names the first attachment carrying `id`.
pub proof fn lemma_first_collider_index(cs: Seq<AttachedCollider>, id: u64)
    requires
        has_collider(cs, id),
    ensures
        0 <= first_collider_index(cs, id) < cs.len(),
        cs[first_collider_index(cs, id)].collider == id,
        forall|j: int| 0 <= j < first_collider_index(cs, id) ==> cs[j].collider != id,
    decreases cs.len(),
{
    if cs.len() > 0 && cs[0].collider != id {
        assert(has_collider(cs.drop_first(), id)) by {
            let i = choose|i: int| 0 <= i < cs.len() && cs[i].collider == id;
            assert(cs.drop_first()[i - 1].collider == id);
        }
        lemma_first_collider_index(cs.drop_first(), id);
        assert forall|j: int| 0 <= j < first_collider_index(cs, id) implies cs[j].collider != id by {
            if j > 0 {
                assert(cs.drop_first()[j - 1] == cs[j]);
            }
        }
    }
}

} // verus!

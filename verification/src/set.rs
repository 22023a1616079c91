//! The rigid-body store: a slot-mapped arena of body records keyed by
//! generational handles.

use vstd::prelude::*;
use crate::body::{
    RigidBody, BodySnap, BodyType, AttachedCollider, body_wf, fresh_body, collider_ids, mass_sum,
    inertia_sum, recip, woken, put_to_sleep, with_translation, with_rotation,
    with_next_translation, with_next_rotation, with_collider, without_collider, has_collider,
    first_collider_index, accepts_forces, cleared, after_force, after_impulse, after_torque,
    after_torque_impulse, after_force_at_point, after_impulse_at_point, next_sleep_state,
    lemma_sums_push, lemma_sums_remove, lemma_sums_nonneg, lemma_first_collider_index,
};
use crate::math::{
    Vec3, Quat, quat_is_zero, vadd_fits, vsub, vsub_fits, cross, cross_fits, scaled_add_fits,
    add_i64, sub_i64, scaled_add_i64, cross_term,
};

verus! {

/// A stable identifier for a body: the slot index plus the slot's
/// generation at the time the body was inserted. A slot reused after a
/// removal carries a higher generation, so a stale handle never resolves.
#[derive(Clone, Copy, PartialEq, Eq, Structural, Debug)]
pub struct Handle {
    pub index: usize,
    pub generation: u64,
}

/// The error of the store's fallible operations: the handle does not
/// resolve to a live body.
#[derive(Clone, Copy, PartialEq, Eq, Structural, Debug)]
pub enum StoreError {
    NotFound,
}

/// One slot of the arena.
pub struct Slot {
    pub generation: u64,
    pub body: Option<RigidBody>,
}

/// The abstract value of a slot.
#[verifier::ext_equal]
pub struct SlotSnap {
    pub generation: u64,
    pub body: Option<BodySnap>,
}

/// The abstract value of the whole store: the slot sequence.
#[verifier::ext_equal]
pub struct SetSnap {
    pub slots: Seq<SlotSnap>,
}

impl View for Slot {
    type V = SlotSnap;

    open spec fn view(&self) -> SlotSnap {
        SlotSnap {
            generation: self.generation,
            body: match self.body {
                Some(b) => Some(b@),
                None => None,
            },
        }
    }
}

/// Does `h` resolve to a live body in `s`?
pub open spec fn valid_handle(s: SetSnap, h: Handle) -> bool {
    &&& h.index < s.slots.len()
    &&& s.slots[h.index as int].generation == h.generation
    &&& s.slots[h.index as int].body is Some
}

/// The body `h` resolves to; meaningful when `valid_handle(s, h)` holds.
pub open spec fn body_of(s: SetSnap, h: Handle) -> BodySnap {
    s.slots[h.index as int].body->Some_0
}

/// The store after the body at `h` is removed: the slot is emptied and its
/// generation advanced, so `h` never resolves again.
pub open spec fn after_remove(s: SetSnap, h: Handle) -> SetSnap {
    SetSnap {
        slots: s.slots.update(
            h.index as int,
            SlotSnap { generation: (h.generation + 1) as u64, body: None },
        ),
    }
}

/// The store with the body at `h` replaced by `b`.
pub open spec fn update_body(s: SetSnap, h: Handle, b: BodySnap) -> SetSnap {
    SetSnap {
        slots: s.slots.update(
            h.index as int,
            SlotSnap { generation: h.generation, body: Some(b) },
        ),
    }
}

/// Every live body of the store is well-formed.
pub open spec fn set_wf(s: SetSnap) -> bool {
    forall|i: int|
        0 <= i < s.slots.len() && s.slots[i].body is Some ==> body_wf(
            #[trigger] s.slots[i].body->Some_0,
        )
}

/// The rigid-body store.
pub struct RigidBodySet {
    pub slots: Vec<Slot>,
    /// Indices of empty slots available for reuse.
    pub free: Vec<usize>,
}

impl View for RigidBodySet {
    type V = SetSnap;

    open spec fn view(&self) -> SetSnap {
        SetSnap { slots: Seq::new(self.slots@.len(), |i: int| self.slots@[i]@) }
    }
}

impl RigidBodySet {
    /// Well-formedness of the store: the free list names empty slots below
    /// the arena length, without duplicates and with room left in their
    /// generation counters; live slots also have generations with room to
    /// grow; and every live body is well-formed.
    pub open spec fn wf(&self) -> bool {
        &&& forall|i: int|
            0 <= i < self.free@.len() ==> (#[trigger] self.free@[i]) < self.slots@.len()
                && self.slots@[self.free@[i] as int].body is None
                && self.slots@[self.free@[i] as int].generation < u64::MAX
        &&& forall|i: int, j: int|
            0 <= i < j < self.free@.len() ==> self.free@[i] != self.free@[j]
        &&& forall|i: int|
            0 <= i < self.slots@.len() && (#[trigger] self.slots@[i]).body is Some
                ==> self.slots@[i].generation < u64::MAX
        &&& set_wf(self@)
    }

    /// An empty store.
    pub fn new() -> (s: RigidBodySet)
        ensures
            s.wf(),
            s@.slots.len() == 0,
    {
        let s = RigidBodySet { slots: Vec::new(), free: Vec::new() };
        proof {
            assert(s@.slots =~= Seq::<SlotSnap>::empty());
        }
        s
    }

    /// Does `h` resolve to a live body?
    pub fn contains(&self, h: Handle) -> (r: bool)
        ensures
            r == valid_handle(self@, h),
    {
        h.index < self.slots.len() && self.slots[h.index].generation == h.generation
            && self.slots[h.index].body.is_some()
    }

    /// The live body `h` resolves to, if any.
    fn get(&self, h: Handle) -> (r: Option<&RigidBody>)
        ensures
            r is Some <==> valid_handle(self@, h),
            r is Some ==> r->Some_0@ == body_of(self@, h),
    {
        if h.index < self.slots.len() && self.slots[h.index].generation == h.generation {
            self.slots[h.index].body.as_ref()
        } else {
            None
        }
    }

    /// Inserts a fresh body of the given kind and returns its handle: a
    /// reused empty slot if one is free, a new slot otherwise. The new
    /// handle resolved to nothing before the call, and every previously
    /// live body is untouched.
    pub fn insert(&mut self, body_type: BodyType) -> (h: Handle)
        requires
            old(self).wf(),
        ensures
            final(self).wf(),
            valid_handle(final(self)@, h),
            body_of(final(self)@, h) == fresh_body(body_type),
            !valid_handle(old(self)@, h),
            h.index <= old(self)@.slots.len(),
            h.index < old(self)@.slots.len()
                ==> final(self)@.slots.len() == old(self)@.slots.len(),
            h.index == old(self)@.slots.len()
                ==> final(self)@.slots.len() == old(self)@.slots.len() + 1,
            old(self)@.slots.len() <= final(self)@.slots.len(),
            forall|i: int|
                0 <= i < old(self)@.slots.len() && i != h.index ==> final(self)@.slots[i]
                    == old(self)@.slots[i],
            forall|hp: Handle|
                valid_handle(old(self)@, hp) ==> valid_handle(final(self)@, hp) && body_of(
                    final(self)@,
                    hp,
                ) == body_of(old(self)@, hp),
    {
        let body = RigidBody {
            body_type,
            translation: Vec3::zero(),
            rotation: Quat::identity(),
            next_translation: Vec3::zero(),
            next_rotation: Quat::identity(),
            linvel: Vec3::zero(),
            angvel: Vec3::zero(),
            force: Vec3::zero(),
            torque: Vec3::zero(),
            mass: 0,
            inertia: 0,
            inv_mass: 0,
            inv_inertia: 0,
            sleeping: false,
            colliders: Vec::new(),
        };
        proof {
            assert(mass_sum(Seq::<crate::body::AttachedCollider>::empty()) == 0);
            assert(inertia_sum(Seq::<crate::body::AttachedCollider>::empty()) == 0);
            assert(body@ =~= fresh_body(body_type));
        }
        let ghost pre = *self;
        match self.free.pop() {
            Some(idx) => {
                proof {
                    assert(pre.free@[pre.free@.len() - 1] == idx);
                }
                let g = self.slots[idx].generation;
                self.slots[idx] = Slot { generation: g, body: Some(body) };
                let h = Handle { index: idx, generation: g };
                proof {
                    assert(pre.slots@[idx as int].generation < u64::MAX);
                    assert forall|i: int|
                        0 <= i < pre@.slots.len() && i != h.index implies self@.slots[i]
                        == pre@.slots[i] by {}
                    assert(body_wf(fresh_body(body_type)));
                    assert forall|i: int|
                        0 <= i < self@.slots.len() && self@.slots[i].body is Some implies body_wf(
                        #[trigger] self@.slots[i].body->Some_0,
                    ) by {
                        if i != idx {
                            assert(self@.slots[i] == pre@.slots[i]);
                            assert(body_wf(pre@.slots[i].body->Some_0));
                        }
                    }
                    assert forall|i: int|
                        0 <= i < self.slots@.len() && (#[trigger] self.slots@[i]).body
                        is Some implies self.slots@[i].generation < u64::MAX by {
                        if i != idx {
                            assert(self.slots@[i] == pre.slots@[i]);
                        }
                    }
                    assert forall|i: int|
                        0 <= i < self.free@.len() implies (#[trigger] self.free@[i])
                        < self.slots@.len() && self.slots@[self.free@[i] as int].body is None
                        && self.slots@[self.free@[i] as int].generation < u64::MAX by {
                        assert(pre.free@[i] == self.free@[i]);
                        assert(pre.free@[i] != idx);
                    }
                    assert forall|hp: Handle|
                        valid_handle(pre@, hp) implies valid_handle(self@, hp) && body_of(
                        self@,
                        hp,
                    ) == body_of(pre@, hp) by {
                        assert(hp.index != idx);
                    }
                }
                h
            },
            None => {
                let idx = self.slots.len();
                self.slots.push(Slot { generation: 0, body: Some(body) });
                let h = Handle { index: idx, generation: 0 };
                proof {
                    assert(body_wf(fresh_body(body_type)));
                    assert forall|i: int|
                        0 <= i < self.free@.len() implies (#[trigger] self.free@[i])
                        < self.slots@.len() && self.slots@[self.free@[i] as int].body is None
                        && self.slots@[self.free@[i] as int].generation < u64::MAX by {
                        assert(pre.free@[i] == self.free@[i]);
                        assert(self.slots@[self.free@[i] as int] == pre.slots@[self.free@[i] as int]);
                    }
                    assert forall|i: int|
                        0 <= i < self@.slots.len() && self@.slots[i].body is Some implies body_wf(
                        #[trigger] self@.slots[i].body->Some_0,
                    ) by {
                        if i != idx {
                            assert(self@.slots[i] == pre@.slots[i]);
                            assert(body_wf(pre@.slots[i].body->Some_0));
                        }
                    }
                    assert forall|i: int|
                        0 <= i < self.slots@.len() && (#[trigger] self.slots@[i]).body
                        is Some implies self.slots@[i].generation < u64::MAX by {
                        if i != idx {
                            assert(self.slots@[i] == pre.slots@[i]);
                        }
                    }
                    assert forall|hp: Handle|
                        valid_handle(pre@, hp) implies valid_handle(self@, hp) && body_of(
                        self@,
                        hp,
                    ) == body_of(pre@, hp) by {
                        assert(hp.index < idx);
                    }
                }
                h
            },
        }
    }

    /// Removes the body `h` resolves to. Its slot is emptied and its
    /// generation advanced, so `h` is invalid from now on; the handles of
    /// the colliders that were attached are handed back for the collider
    /// set to dispose of.
    pub fn remove(&mut self, h: Handle) -> (r: Result<Vec<u64>, StoreError>)
        requires
            old(self).wf(),
        ensures
            final(self).wf(),
            r is Ok <==> valid_handle(old(self)@, h),
            !valid_handle(old(self)@, h) ==> r == Err::<Vec<u64>, StoreError>(StoreError::NotFound)
                && final(self)@ == old(self)@,
            valid_handle(old(self)@, h) ==> {
                &&& r is Ok
                &&& r->Ok_0@ == collider_ids(body_of(old(self)@, h).colliders)
                &&& final(self)@ == after_remove(old(self)@, h)
                &&& !valid_handle(final(self)@, h)
            },
    {
        if h.index >= self.slots.len() || self.slots[h.index].generation != h.generation
            || self.slots[h.index].body.is_none() {
            return Err(StoreError::NotFound);
        }
        let ghost pre = *self;
        let mut ids: Vec<u64> = Vec::new();
        let rb = self.slots[h.index].body.as_ref().unwrap();
        let n = rb.colliders.len();
        let mut k: usize = 0;
        while k < n
            invariant
                k <= n,
                n == rb.colliders@.len(),
                ids@.len() == k,
                forall|j: int| 0 <= j < k ==> ids@[j] == rb.colliders@[j as int].collider,
            decreases n - k,
        {
            ids.push(rb.colliders[k].collider);
            k += 1;
        }
        proof {
            assert(ids@ =~= collider_ids(body_of(pre@, h).colliders));
        }
        let g = h.generation;
        self.slots[h.index] = Slot { generation: g + 1, body: None };
        if g + 1 < u64::MAX {
            self.free.push(h.index);
        }
        proof {
            assert(self@ =~~= after_remove(pre@, h));
            assert forall|i: int|
                0 <= i < self.free@.len() implies (#[trigger] self.free@[i]) < self.slots@.len()
                && self.slots@[self.free@[i] as int].body is None
                && self.slots@[self.free@[i] as int].generation < u64::MAX by {
                if i < pre.free@.len() {
                    assert(pre.free@[i] == self.free@[i]);
                    assert(pre.free@[i] != h.index);
                }
            }
            assert forall|i: int, j: int|
                0 <= i < j < self.free@.len() implies self.free@[i] != self.free@[j] by {
                if j < pre.free@.len() {
                } else {
                    assert(self.free@[j] == h.index);
                    assert(pre.free@[i] != h.index);
                }
            }
        }
        Ok(ids)
    }

    /// The world-space translation of the body.
    pub fn translation(&self, h: Handle) -> (r: Result<Vec3, StoreError>)
        ensures
            valid_handle(self@, h) ==> r == Ok::<Vec3, StoreError>(body_of(self@, h).translation),
            !valid_handle(self@, h) ==> r == Err::<Vec3, StoreError>(StoreError::NotFound),
    {
        match self.get(h) {
            Some(b) => Ok(b.translation),
            None => Err(StoreError::NotFound),
        }
    }

    /// The world-space orientation of the body.
    pub fn rotation(&self, h: Handle) -> (r: Result<Quat, StoreError>)
        ensures
            valid_handle(self@, h) ==> r == Ok::<Quat, StoreError>(body_of(self@, h).rotation),
            !valid_handle(self@, h) ==> r == Err::<Quat, StoreError>(StoreError::NotFound),
    {
        match self.get(h) {
            Some(b) => Ok(b.rotation),
            None => Err(StoreError::NotFound),
        }
    }

    /// The translation forecast for the next timestep: the kinematic
    /// target of a Kinematic body; for other bodies, the value last held
    /// (initially the initial pose).
    pub fn predicted_translation(&self, h: Handle) -> (r: Result<Vec3, StoreError>)
        ensures
            valid_handle(self@, h) ==> r == Ok::<Vec3, StoreError>(
                body_of(self@, h).next_translation,
            ),
            !valid_handle(self@, h) ==> r == Err::<Vec3, StoreError>(StoreError::NotFound),
    {
        match self.get(h) {
            Some(b) => Ok(b.next_translation),
            None => Err(StoreError::NotFound),
        }
    }

    /// The orientation forecast for the next timestep.
    pub fn predicted_rotation(&self, h: Handle) -> (r: Result<Quat, StoreError>)
        ensures
            valid_handle(self@, h) ==> r == Ok::<Quat, StoreError>(body_of(self@, h).next_rotation),
            !valid_handle(self@, h) ==> r == Err::<Quat, StoreError>(StoreError::NotFound),
    {
        match self.get(h) {
            Some(b) => Ok(b.next_rotation),
            None => Err(StoreError::NotFound),
        }
    }

    /// The linear velocity of the body.
    pub fn linear_velocity(&self, h: Handle) -> (r: Result<Vec3, StoreError>)
        ensures
            valid_handle(self@, h) ==> r == Ok::<Vec3, StoreError>(body_of(self@, h).linvel),
            !valid_handle(self@, h) ==> r == Err::<Vec3, StoreError>(StoreError::NotFound),
    {
        match self.get(h) {
            Some(b) => Ok(b.linvel),
            None => Err(StoreError::NotFound),
        }
    }

    /// The angular velocity of the body.
    pub fn angular_velocity(&self, h: Handle) -> (r: Result<Vec3, StoreError>)
        ensures
            valid_handle(self@, h) ==> r == Ok::<Vec3, StoreError>(body_of(self@, h).angvel),
            !valid_handle(self@, h) ==> r == Err::<Vec3, StoreError>(StoreError::NotFound),
    {
        match self.get(h) {
            Some(b) => Ok(b.angvel),
            None => Err(StoreError::NotFound),
        }
    }

    /// The body's accumulated force, as summed since the last integration
    /// step.
    pub fn force(&self, h: Handle) -> (r: Result<Vec3, StoreError>)
        ensures
            valid_handle(self@, h) ==> r == Ok::<Vec3, StoreError>(body_of(self@, h).force),
            !valid_handle(self@, h) ==> r == Err::<Vec3, StoreError>(StoreError::NotFound),
    {
        match self.get(h) {
            Some(b) => Ok(b.force),
            None => Err(StoreError::NotFound),
        }
    }

    /// The body's accumulated torque, as summed since the last integration
    /// step.
    pub fn torque(&self, h: Handle) -> (r: Result<Vec3, StoreError>)
        ensures
            valid_handle(self@, h) ==> r == Ok::<Vec3, StoreError>(body_of(self@, h).torque),
            !valid_handle(self@, h) ==> r == Err::<Vec3, StoreError>(StoreError::NotFound),
    {
        match self.get(h) {
            Some(b) => Ok(b.torque),
            None => Err(StoreError::NotFound),
        }
    }

    /// The mass of the body, as summed from its attached colliders.
    pub fn mass(&self, h: Handle) -> (r: Result<u64, StoreError>)
        ensures
            valid_handle(self@, h) ==> r == Ok::<u64, StoreError>(body_of(self@, h).mass),
            !valid_handle(self@, h) ==> r == Err::<u64, StoreError>(StoreError::NotFound),
    {
        match self.get(h) {
            Some(b) => Ok(b.mass),
            None => Err(StoreError::NotFound),
        }
    }

    /// The fixed-point inverse mass of the body.
    pub fn inverse_mass(&self, h: Handle) -> (r: Result<i64, StoreError>)
        ensures
            valid_handle(self@, h) ==> r == Ok::<i64, StoreError>(body_of(self@, h).inv_mass),
            !valid_handle(self@, h) ==> r == Err::<i64, StoreError>(StoreError::NotFound),
    {
        match self.get(h) {
            Some(b) => Ok(b.inv_mass),
            None => Err(StoreError::NotFound),
        }
    }

    /// The fixed-point inverse inertia of the body.
    pub fn inverse_inertia(&self, h: Handle) -> (r: Result<i64, StoreError>)
        ensures
            valid_handle(self@, h) ==> r == Ok::<i64, StoreError>(body_of(self@, h).inv_inertia),
            !valid_handle(self@, h) ==> r == Err::<i64, StoreError>(StoreError::NotFound),
    {
        match self.get(h) {
            Some(b) => Ok(b.inv_inertia),
            None => Err(StoreError::NotFound),
        }
    }

    /// The kind of the body.
    pub fn body_type(&self, h: Handle) -> (r: Result<BodyType, StoreError>)
        ensures
            valid_handle(self@, h) ==> r == Ok::<BodyType, StoreError>(body_of(self@, h).body_type),
            !valid_handle(self@, h) ==> r == Err::<BodyType, StoreError>(StoreError::NotFound),
    {
        match self.get(h) {
            Some(b) => Ok(b.body_type),
            None => Err(StoreError::NotFound),
        }
    }

    /// Is the body Static?
    pub fn is_static(&self, h: Handle) -> (r: Result<bool, StoreError>)
        ensures
            valid_handle(self@, h) ==> r == Ok::<bool, StoreError>(
                body_of(self@, h).body_type is Static,
            ),
            !valid_handle(self@, h) ==> r == Err::<bool, StoreError>(StoreError::NotFound),
    {
        match self.get(h) {
            Some(b) => Ok(b.body_type == BodyType::Static),
            None => Err(StoreError::NotFound),
        }
    }

    /// Is the body Kinematic?
    pub fn is_kinematic(&self, h: Handle) -> (r: Result<bool, StoreError>)
        ensures
            valid_handle(self@, h) ==> r == Ok::<bool, StoreError>(
                body_of(self@, h).body_type is Kinematic,
            ),
            !valid_handle(self@, h) ==> r == Err::<bool, StoreError>(StoreError::NotFound),
    {
        match self.get(h) {
            Some(b) => Ok(b.body_type == BodyType::Kinematic),
            None => Err(StoreError::NotFound),
        }
    }

    /// Is the body Dynamic?
    pub fn is_dynamic(&self, h: Handle) -> (r: Result<bool, StoreError>)
        ensures
            valid_handle(self@, h) ==> r == Ok::<bool, StoreError>(
                body_of(self@, h).body_type is Dynamic,
            ),
            !valid_handle(self@, h) ==> r == Err::<bool, StoreError>(StoreError::NotFound),
    {
        match self.get(h) {
            Some(b) => Ok(b.body_type == BodyType::Dynamic),
            None => Err(StoreError::NotFound),
        }
    }

    /// Is the body currently sleeping?
    pub fn is_sleeping(&self, h: Handle) -> (r: Result<bool, StoreError>)
        ensures
            valid_handle(self@, h) ==> r == Ok::<bool, StoreError>(body_of(self@, h).sleeping),
            !valid_handle(self@, h) ==> r == Err::<bool, StoreError>(StoreError::NotFound),
    {
        match self.get(h) {
            Some(b) => Ok(b.sleeping),
            None => Err(StoreError::NotFound),
        }
    }

    /// How many colliders are attached to the body.
    pub fn num_colliders(&self, h: Handle) -> (r: Result<usize, StoreError>)
        ensures
            valid_handle(self@, h) ==> r is Ok && r->Ok_0 == body_of(self@, h).colliders.len(),
            !valid_handle(self@, h) ==> r == Err::<usize, StoreError>(StoreError::NotFound),
    {
        match self.get(h) {
            Some(b) => Ok(b.colliders.len()),
            None => Err(StoreError::NotFound),
        }
    }
    /// Overwrites the body's translation. If `wake_up` is set the body is
    /// forced awake first; otherwise the pose still changes (the pose is
    /// authoritative) but a sleeping body stays excluded from forces.
    pub fn set_translation(&mut self, h: Handle, p: Vec3, wake_up: bool) -> (r: Result<
        (),
        StoreError,
    >)
        requires
            old(self).wf(),
        ensures
            final(self).wf(),
            r is Ok <==> valid_handle(old(self)@, h),
            !valid_handle(old(self)@, h) ==> r == Err::<(), StoreError>(StoreError::NotFound)
                && final(self)@ == old(self)@,
            valid_handle(old(self)@, h) ==> final(self)@ == update_body(
                old(self)@,
                h,
                with_translation(woken(body_of(old(self)@, h), wake_up), p),
            ),
    {
        if h.index >= self.slots.len() || self.slots[h.index].generation != h.generation
            || self.slots[h.index].body.is_none() {
            return Err(StoreError::NotFound);
        }
        let ghost pre = *self;
        let slot = &mut self.slots[h.index];
        if let Some(b) = &mut slot.body {
            b.sleeping = next_sleep_state(b.sleeping, wake_up);
            b.translation = p;
        }
        proof {
            lemma_body_update(pre, *self, h, with_translation(woken(body_of(pre@, h), wake_up), p));
        }
        Ok(())
    }

    /// Overwrites the body's rotation, with the same wake rule as
    /// `set_translation`. The degenerate zero quaternion is silently
    /// ignored: the whole call is then a no-op, not an error.
    pub fn set_rotation(&mut self, h: Handle, q: Quat, wake_up: bool) -> (r: Result<
        (),
        StoreError,
    >)
        requires
            old(self).wf(),
        ensures
            final(self).wf(),
            r is Ok <==> valid_handle(old(self)@, h),
            !valid_handle(old(self)@, h) ==> r == Err::<(), StoreError>(StoreError::NotFound)
                && final(self)@ == old(self)@,
            valid_handle(old(self)@, h) && quat_is_zero(q) ==> final(self)@ == old(self)@,
            valid_handle(old(self)@, h) && !quat_is_zero(q) ==> final(self)@ == update_body(
                old(self)@,
                h,
                with_rotation(woken(body_of(old(self)@, h), wake_up), q),
            ),
    {
        if h.index >= self.slots.len() || self.slots[h.index].generation != h.generation
            || self.slots[h.index].body.is_none() {
            return Err(StoreError::NotFound);
        }
        if q.is_zero() {
            return Ok(());
        }
        let ghost pre = *self;
        let slot = &mut self.slots[h.index];
        if let Some(b) = &mut slot.body {
            b.sleeping = next_sleep_state(b.sleeping, wake_up);
            b.rotation = q;
        }
        proof {
            lemma_body_update(pre, *self, h, with_rotation(woken(body_of(pre@, h), wake_up), q));
        }
        Ok(())
    }

    /// Schedules the translation a Kinematic body must reach after the
    /// next timestep. On a non-Kinematic body the call is a documented
    /// no-op, since only the integrator of Kinematic bodies reads the
    /// target. Never wakes the body.
    pub fn set_next_kinematic_translation(&mut self, h: Handle, p: Vec3) -> (r: Result<
        (),
        StoreError,
    >)
        requires
            old(self).wf(),
        ensures
            final(self).wf(),
            r is Ok <==> valid_handle(old(self)@, h),
            !valid_handle(old(self)@, h) ==> r == Err::<(), StoreError>(StoreError::NotFound)
                && final(self)@ == old(self)@,
            valid_handle(old(self)@, h) && body_of(old(self)@, h).body_type is Kinematic
                ==> final(self)@ == update_body(
                old(self)@,
                h,
                with_next_translation(body_of(old(self)@, h), p),
            ),
            valid_handle(old(self)@, h) && !(body_of(old(self)@, h).body_type is Kinematic)
                ==> final(self)@ == old(self)@,
    {
        if h.index >= self.slots.len() || self.slots[h.index].generation != h.generation
            || self.slots[h.index].body.is_none() {
            return Err(StoreError::NotFound);
        }
        let ghost pre = *self;
        let slot = &mut self.slots[h.index];
        let mut changed = false;
        if let Some(b) = &mut slot.body {
            if b.body_type == BodyType::Kinematic {
                b.next_translation = p;
                changed = true;
            }
        }
        proof {
            if changed {
                lemma_body_update(pre, *self, h, with_next_translation(body_of(pre@, h), p));
            } else {
                assert(self.slots@ =~= pre.slots@);
                assert(self@.slots =~= pre@.slots);
                assert(self@ =~= pre@);
            }
        }
        Ok(())
    }

    /// Schedules the rotation a Kinematic body must reach after the next
    /// timestep; a no-op on non-Kinematic bodies and for the degenerate
    /// zero quaternion. Never wakes the body.
    pub fn set_next_kinematic_rotation(&mut self, h: Handle, q: Quat) -> (r: Result<
        (),
        StoreError,
    >)
        requires
            old(self).wf(),
        ensures
            final(self).wf(),
            r is Ok <==> valid_handle(old(self)@, h),
            !valid_handle(old(self)@, h) ==> r == Err::<(), StoreError>(StoreError::NotFound)
                && final(self)@ == old(self)@,
            valid_handle(old(self)@, h) && quat_is_zero(q) ==> final(self)@ == old(self)@,
            valid_handle(old(self)@, h) && !quat_is_zero(q) && body_of(old(self)@, h).body_type
                is Kinematic ==> final(self)@ == update_body(
                old(self)@,
                h,
                with_next_rotation(body_of(old(self)@, h), q),
            ),
            valid_handle(old(self)@, h) && !quat_is_zero(q) && !(body_of(old(self)@, h).body_type
                is Kinematic) ==> final(self)@ == old(self)@,
    {
        if h.index >= self.slots.len() || self.slots[h.index].generation != h.generation
            || self.slots[h.index].body.is_none() {
            return Err(StoreError::NotFound);
        }
        if q.is_zero() {
            return Ok(());
        }
        let ghost pre = *self;
        let slot = &mut self.slots[h.index];
        let mut changed = false;
        if let Some(b) = &mut slot.body {
            if b.body_type == BodyType::Kinematic {
                b.next_rotation = q;
                changed = true;
            }
        }
        proof {
            if changed {
                lemma_body_update(pre, *self, h, with_next_rotation(body_of(pre@, h), q));
            } else {
                assert(self.slots@ =~= pre.slots@);
                assert(self@.slots =~= pre@.slots);
                assert(self@ =~= pre@);
            }
        }
        Ok(())
    }

    /// Forces the body awake; a no-op on a body that is already awake.
    pub fn wake_up(&mut self, h: Handle) -> (r: Result<(), StoreError>)
        requires
            old(self).wf(),
        ensures
            final(self).wf(),
            r is Ok <==> valid_handle(old(self)@, h),
            !valid_handle(old(self)@, h) ==> r == Err::<(), StoreError>(StoreError::NotFound)
                && final(self)@ == old(self)@,
            valid_handle(old(self)@, h) ==> final(self)@ == update_body(
                old(self)@,
                h,
                woken(body_of(old(self)@, h), true),
            ),
    {
        if h.index >= self.slots.len() || self.slots[h.index].generation != h.generation
            || self.slots[h.index].body.is_none() {
            return Err(StoreError::NotFound);
        }
        let ghost pre = *self;
        let slot = &mut self.slots[h.index];
        if let Some(b) = &mut slot.body {
            b.sleeping = false;
        }
        proof {
            lemma_body_update(pre, *self, h, woken(body_of(pre@, h), true));
        }
        Ok(())
    }

    /// Parks the body: the integrator's hook for the idle-timer sleep
    /// transition. The body is then excluded from integration and from
    /// accumulator application until something wakes it.
    pub fn sleep(&mut self, h: Handle) -> (r: Result<(), StoreError>)
        requires
            old(self).wf(),
        ensures
            final(self).wf(),
            r is Ok <==> valid_handle(old(self)@, h),
            !valid_handle(old(self)@, h) ==> r == Err::<(), StoreError>(StoreError::NotFound)
                && final(self)@ == old(self)@,
            valid_handle(old(self)@, h) ==> final(self)@ == update_body(
                old(self)@,
                h,
                put_to_sleep(body_of(old(self)@, h)),
            ),
    {
        if h.index >= self.slots.len() || self.slots[h.index].generation != h.generation
            || self.slots[h.index].body.is_none() {
            return Err(StoreError::NotFound);
        }
        let ghost pre = *self;
        let slot = &mut self.slots[h.index];
        if let Some(b) = &mut slot.body {
            b.sleeping = true;
        }
        proof {
            lemma_body_update(pre, *self, h, put_to_sleep(body_of(pre@, h)));
        }
        Ok(())
    }
    /// Resets the body's force and torque accumulators: the integrator's
    /// hook at the end of a step, after it has consumed them.
    pub fn clear_accumulators(&mut self, h: Handle) -> (r: Result<(), StoreError>)
        requires
            old(self).wf(),
        ensures
            final(self).wf(),
            r is Ok <==> valid_handle(old(self)@, h),
            !valid_handle(old(self)@, h) ==> r == Err::<(), StoreError>(StoreError::NotFound)
                && final(self)@ == old(self)@,
            valid_handle(old(self)@, h) ==> final(self)@ == update_body(
                old(self)@,
                h,
                cleared(body_of(old(self)@, h)),
            ),
    {
        if h.index >= self.slots.len() || self.slots[h.index].generation != h.generation
            || self.slots[h.index].body.is_none() {
            return Err(StoreError::NotFound);
        }
        let ghost pre = *self;
        let slot = &mut self.slots[h.index];
        if let Some(b) = &mut slot.body {
            b.force = Vec3 { x: 0, y: 0, z: 0 };
            b.torque = Vec3 { x: 0, y: 0, z: 0 };
        }
        proof {
            lemma_body_update(pre, *self, h, cleared(body_of(pre@, h)));
        }
        Ok(())
    }

    /// Adds a world-space force at the body's center of mass to the force
    /// accumulator. Only a Dynamic body takes forces, and a sleeping body
    /// is excluded unless `wake_up` forces it awake first.
    pub fn apply_force(&mut self, h: Handle, f: Vec3, wake_up: bool) -> (r: Result<
        (),
        StoreError,
    >)
        requires
            old(self).wf(),
            valid_handle(old(self)@, h) && accepts_forces(body_of(old(self)@, h), wake_up)
                ==> vadd_fits(body_of(old(self)@, h).force, f),
        ensures
            final(self).wf(),
            r is Ok <==> valid_handle(old(self)@, h),
            !valid_handle(old(self)@, h) ==> r == Err::<(), StoreError>(StoreError::NotFound)
                && final(self)@ == old(self)@,
            valid_handle(old(self)@, h) ==> final(self)@ == update_body(
                old(self)@,
                h,
                after_force(body_of(old(self)@, h), f, wake_up),
            ),
    {
        if h.index >= self.slots.len() || self.slots[h.index].generation != h.generation
            || self.slots[h.index].body.is_none() {
            return Err(StoreError::NotFound);
        }
        let ghost pre = *self;
        let slot = &mut self.slots[h.index];
        if let Some(b) = &mut slot.body {
            let applies = b.body_type == BodyType::Dynamic && (wake_up || !b.sleeping);
            b.sleeping = next_sleep_state(b.sleeping, wake_up);
            if applies {
                b.force = Vec3 {
                    x: add_i64(b.force.x, f.x),
                    y: add_i64(b.force.y, f.y),
                    z: add_i64(b.force.z, f.z),
                };
            }
        }
        proof {
            lemma_body_update(pre, *self, h, after_force(body_of(pre@, h), f, wake_up));
        }
        Ok(())
    }

    /// Changes the body's linear velocity instantaneously by
    /// `impulse * inverse mass`, with the same Dynamic-only and
    /// sleep-exclusion rules as `apply_force`.
    pub fn apply_impulse(&mut self, h: Handle, j: Vec3, wake_up: bool) -> (r: Result<
        (),
        StoreError,
    >)
        requires
            old(self).wf(),
            valid_handle(old(self)@, h) && accepts_forces(body_of(old(self)@, h), wake_up)
                ==> scaled_add_fits(
                body_of(old(self)@, h).linvel,
                j,
                body_of(old(self)@, h).inv_mass,
            ),
        ensures
            final(self).wf(),
            r is Ok <==> valid_handle(old(self)@, h),
            !valid_handle(old(self)@, h) ==> r == Err::<(), StoreError>(StoreError::NotFound)
                && final(self)@ == old(self)@,
            valid_handle(old(self)@, h) ==> final(self)@ == update_body(
                old(self)@,
                h,
                after_impulse(body_of(old(self)@, h), j, wake_up),
            ),
    {
        if h.index >= self.slots.len() || self.slots[h.index].generation != h.generation
            || self.slots[h.index].body.is_none() {
            return Err(StoreError::NotFound);
        }
        let ghost pre = *self;
        let slot = &mut self.slots[h.index];
        if let Some(b) = &mut slot.body {
            let applies = b.body_type == BodyType::Dynamic && (wake_up || !b.sleeping);
            b.sleeping = next_sleep_state(b.sleeping, wake_up);
            if applies {
                let k = b.inv_mass;
                b.linvel = Vec3 {
                    x: scaled_add_i64(b.linvel.x, j.x, k),
                    y: scaled_add_i64(b.linvel.y, j.y, k),
                    z: scaled_add_i64(b.linvel.z, j.z, k),
                };
            }
        }
        proof {
            lemma_body_update(pre, *self, h, after_impulse(body_of(pre@, h), j, wake_up));
        }
        Ok(())
    }

    /// Adds a world-space torque at the body's center of mass to the
    /// torque accumulator, under the same rules as `apply_force`.
    pub fn apply_torque(&mut self, h: Handle, t: Vec3, wake_up: bool) -> (r: Result<
        (),
        StoreError,
    >)
        requires
            old(self).wf(),
            valid_handle(old(self)@, h) && accepts_forces(body_of(old(self)@, h), wake_up)
                ==> vadd_fits(body_of(old(self)@, h).torque, t),
        ensures
            final(self).wf(),
            r is Ok <==> valid_handle(old(self)@, h),
            !valid_handle(old(self)@, h) ==> r == Err::<(), StoreError>(StoreError::NotFound)
                && final(self)@ == old(self)@,
            valid_handle(old(self)@, h) ==> final(self)@ == update_body(
                old(self)@,
                h,
                after_torque(body_of(old(self)@, h), t, wake_up),
            ),
    {
        if h.index >= self.slots.len() || self.slots[h.index].generation != h.generation
            || self.slots[h.index].body.is_none() {
            return Err(StoreError::NotFound);
        }
        let ghost pre = *self;
        let slot = &mut self.slots[h.index];
        if let Some(b) = &mut slot.body {
            let applies = b.body_type == BodyType::Dynamic && (wake_up || !b.sleeping);
            b.sleeping = next_sleep_state(b.sleeping, wake_up);
            if applies {
                b.torque = Vec3 {
                    x: add_i64(b.torque.x, t.x),
                    y: add_i64(b.torque.y, t.y),
                    z: add_i64(b.torque.z, t.z),
                };
            }
        }
        proof {
            lemma_body_update(pre, *self, h, after_torque(body_of(pre@, h), t, wake_up));
        }
        Ok(())
    }

    /// Changes the body's angular velocity instantaneously by
    /// `torque impulse * inverse inertia`, under the same rules as
    /// `apply_force`.
    pub fn apply_torque_impulse(&mut self, h: Handle, t: Vec3, wake_up: bool) -> (r: Result<
        (),
        StoreError,
    >)
        requires
            old(self).wf(),
            valid_handle(old(self)@, h) && accepts_forces(body_of(old(self)@, h), wake_up)
                ==> scaled_add_fits(
                body_of(old(self)@, h).angvel,
                t,
                body_of(old(self)@, h).inv_inertia,
            ),
        ensures
            final(self).wf(),
            r is Ok <==> valid_handle(old(self)@, h),
            !valid_handle(old(self)@, h) ==> r == Err::<(), StoreError>(StoreError::NotFound)
                && final(self)@ == old(self)@,
            valid_handle(old(self)@, h) ==> final(self)@ == update_body(
                old(self)@,
                h,
                after_torque_impulse(body_of(old(self)@, h), t, wake_up),
            ),
    {
        if h.index >= self.slots.len() || self.slots[h.index].generation != h.generation
            || self.slots[h.index].body.is_none() {
            return Err(StoreError::NotFound);
        }
        let ghost pre = *self;
        let slot = &mut self.slots[h.index];
        if let Some(b) = &mut slot.body {
            let applies = b.body_type == BodyType::Dynamic && (wake_up || !b.sleeping);
            b.sleeping = next_sleep_state(b.sleeping, wake_up);
            if applies {
                let k = b.inv_inertia;
                b.angvel = Vec3 {
                    x: scaled_add_i64(b.angvel.x, t.x, k),
                    y: scaled_add_i64(b.angvel.y, t.y, k),
                    z: scaled_add_i64(b.angvel.z, t.z, k),
                };
            }
        }
        proof {
            lemma_body_update(pre, *self, h, after_torque_impulse(body_of(pre@, h), t, wake_up));
        }
        Ok(())
    }

    /// Applies a world-space force at a world-space point: the force goes
    /// to the force accumulator and the lever arm about the center of mass
    /// contributes `(point - translation) x f` to the torque accumulator.
    pub fn apply_force_at_point(&mut self, h: Handle, f: Vec3, point: Vec3, wake_up: bool) -> (r:
        Result<(), StoreError>)
        requires
            old(self).wf(),
            valid_handle(old(self)@, h) && accepts_forces(body_of(old(self)@, h), wake_up) ==> {
                let b = body_of(old(self)@, h);
                &&& vadd_fits(b.force, f)
                &&& vsub_fits(point, b.translation)
                &&& cross_fits(vsub(point, b.translation), f)
                &&& vadd_fits(b.torque, cross(vsub(point, b.translation), f))
            },
        ensures
            final(self).wf(),
            r is Ok <==> valid_handle(old(self)@, h),
            !valid_handle(old(self)@, h) ==> r == Err::<(), StoreError>(StoreError::NotFound)
                && final(self)@ == old(self)@,
            valid_handle(old(self)@, h) ==> final(self)@ == update_body(
                old(self)@,
                h,
                after_force_at_point(body_of(old(self)@, h), f, point, wake_up),
            ),
    {
        if h.index >= self.slots.len() || self.slots[h.index].generation != h.generation
            || self.slots[h.index].body.is_none() {
            return Err(StoreError::NotFound);
        }
        let ghost pre = *self;
        let slot = &mut self.slots[h.index];
        if let Some(b) = &mut slot.body {
            let applies = b.body_type == BodyType::Dynamic && (wake_up || !b.sleeping);
            b.sleeping = next_sleep_state(b.sleeping, wake_up);
            if applies {
                let lx = sub_i64(point.x, b.translation.x);
                let ly = sub_i64(point.y, b.translation.y);
                let lz = sub_i64(point.z, b.translation.z);
                let tx = cross_term(ly, f.z, lz, f.y);
                let ty = cross_term(lz, f.x, lx, f.z);
                let tz = cross_term(lx, f.y, ly, f.x);
                b.force = Vec3 {
                    x: add_i64(b.force.x, f.x),
                    y: add_i64(b.force.y, f.y),
                    z: add_i64(b.force.z, f.z),
                };
                b.torque = Vec3 {
                    x: add_i64(b.torque.x, tx),
                    y: add_i64(b.torque.y, ty),
                    z: add_i64(b.torque.z, tz),
                };
            }
        }
        proof {
            lemma_body_update(pre, *self, h, after_force_at_point(body_of(pre@, h), f, point, wake_up));
        }
        Ok(())
    }

    /// Applies a world-space impulse at a world-space point: the linear
    /// velocity changes by `j * inverse mass` and the angular velocity by
    /// `((point - translation) x j) * inverse inertia`.
    pub fn apply_impulse_at_point(&mut self, h: Handle, j: Vec3, point: Vec3, wake_up: bool) -> (r:
        Result<(), StoreError>)
        requires
            old(self).wf(),
            valid_handle(old(self)@, h) && accepts_forces(body_of(old(self)@, h), wake_up) ==> {
                let b = body_of(old(self)@, h);
                &&& scaled_add_fits(b.linvel, j, b.inv_mass)
                &&& vsub_fits(point, b.translation)
                &&& cross_fits(vsub(point, b.translation), j)
                &&& scaled_add_fits(b.angvel, cross(vsub(point, b.translation), j), b.inv_inertia)
            },
        ensures
            final(self).wf(),
            r is Ok <==> valid_handle(old(self)@, h),
            !valid_handle(old(self)@, h) ==> r == Err::<(), StoreError>(StoreError::NotFound)
                && final(self)@ == old(self)@,
            valid_handle(old(self)@, h) ==> final(self)@ == update_body(
                old(self)@,
                h,
                after_impulse_at_point(body_of(old(self)@, h), j, point, wake_up),
            ),
    {
        if h.index >= self.slots.len() || self.slots[h.index].generation != h.generation
            || self.slots[h.index].body.is_none() {
            return Err(StoreError::NotFound);
        }
        let ghost pre = *self;
        let slot = &mut self.slots[h.index];
        if let Some(b) = &mut slot.body {
            let applies = b.body_type == BodyType::Dynamic && (wake_up || !b.sleeping);
            b.sleeping = next_sleep_state(b.sleeping, wake_up);
            if applies {
                let lx = sub_i64(point.x, b.translation.x);
                let ly = sub_i64(point.y, b.translation.y);
                let lz = sub_i64(point.z, b.translation.z);
                let cx = cross_term(ly, j.z, lz, j.y);
                let cy = cross_term(lz, j.x, lx, j.z);
                let cz = cross_term(lx, j.y, ly, j.x);
                let km = b.inv_mass;
                let ki = b.inv_inertia;
                b.linvel = Vec3 {
                    x: scaled_add_i64(b.linvel.x, j.x, km),
                    y: scaled_add_i64(b.linvel.y, j.y, km),
                    z: scaled_add_i64(b.linvel.z, j.z, km),
                };
                b.angvel = Vec3 {
                    x: scaled_add_i64(b.angvel.x, cx, ki),
                    y: scaled_add_i64(b.angvel.y, cy, ki),
                    z: scaled_add_i64(b.angvel.z, cz, ki),
                };
            }
        }
        proof {
            lemma_body_update(
                pre,
                *self,
                h,
                after_impulse_at_point(body_of(pre@, h), j, point, wake_up),
            );
        }
        Ok(())
    }
    /// Records a collider attachment on the body and recomputes its mass
    /// properties from the new contribution.
    pub fn attach_collider(
        &mut self,
        h: Handle,
        collider: u64,
        mass_c: u64,
        inertia_c: u64,
    ) -> (r: Result<(), StoreError>)
        requires
            old(self).wf(),
            valid_handle(old(self)@, h) ==> body_of(old(self)@, h).mass + mass_c <= u64::MAX
                && body_of(old(self)@, h).inertia + inertia_c <= u64::MAX,
        ensures
            final(self).wf(),
            r is Ok <==> valid_handle(old(self)@, h),
            !valid_handle(old(self)@, h) ==> r == Err::<(), StoreError>(StoreError::NotFound)
                && final(self)@ == old(self)@,
            valid_handle(old(self)@, h) ==> final(self)@ == update_body(
                old(self)@,
                h,
                with_collider(
                    body_of(old(self)@, h),
                    AttachedCollider { collider, mass: mass_c, inertia: inertia_c },
                ),
            ),
    {
        if h.index >= self.slots.len() || self.slots[h.index].generation != h.generation
            || self.slots[h.index].body.is_none() {
            return Err(StoreError::NotFound);
        }
        let ghost pre = *self;
        let c = AttachedCollider { collider, mass: mass_c, inertia: inertia_c };
        let slot = &mut self.slots[h.index];
        if let Some(b) = &mut slot.body {
            proof {
                lemma_sums_push(b.colliders@, c);
            }
            let m = b.mass + mass_c;
            let n = b.inertia + inertia_c;
            b.colliders.push(c);
            b.mass = m;
            b.inertia = n;
            b.inv_mass = recip(m);
            b.inv_inertia = recip(n);
        }
        proof {
            lemma_body_update(pre, *self, h, with_collider(body_of(pre@, h), c));
        }
        Ok(())
    }

    /// Detaches the first attachment carrying the given collider handle,
    /// recomputing the body's mass properties; returns whether one was
    /// found.
    pub fn detach_collider(&mut self, h: Handle, collider: u64) -> (r: Result<bool, StoreError>)
        requires
            old(self).wf(),
        ensures
            final(self).wf(),
            r is Ok <==> valid_handle(old(self)@, h),
            !valid_handle(old(self)@, h) ==> r == Err::<bool, StoreError>(StoreError::NotFound)
                && final(self)@ == old(self)@,
            valid_handle(old(self)@, h) && has_collider(body_of(old(self)@, h).colliders, collider)
                ==> r == Ok::<bool, StoreError>(true) && final(self)@ == update_body(
                old(self)@,
                h,
                without_collider(body_of(old(self)@, h), collider),
            ),
            valid_handle(old(self)@, h) && !has_collider(
                body_of(old(self)@, h).colliders,
                collider,
            ) ==> r == Ok::<bool, StoreError>(false) && final(self)@ == old(self)@,
    {
        if h.index >= self.slots.len() || self.slots[h.index].generation != h.generation
            || self.slots[h.index].body.is_none() {
            return Err(StoreError::NotFound);
        }
        let ghost pre = *self;
        let rb = self.slots[h.index].body.as_ref().unwrap();
        let n = rb.colliders.len();
        let mut k: usize = 0;
        while k < n && rb.colliders[k].collider != collider
            invariant
                k <= n,
                n == rb.colliders@.len(),
                forall|i: int| 0 <= i < k ==> rb.colliders@[i].collider != collider,
            decreases n - k,
        {
            k += 1;
        }
        if k == n {
            proof {
                assert(!has_collider(body_of(pre@, h).colliders, collider));
            }
            return Ok(false);
        }
        let slot = &mut self.slots[h.index];
        if let Some(b) = &mut slot.body {
            let c = b.colliders[k];
            proof {
                lemma_sums_remove(b.colliders@, k as int);
                lemma_sums_nonneg(b.colliders@.remove(k as int));
            }
            let _ = b.colliders.remove(k);
            let m = b.mass - c.mass;
            let n2 = b.inertia - c.inertia;
            b.mass = m;
            b.inertia = n2;
            b.inv_mass = recip(m);
            b.inv_inertia = recip(n2);
        }
        proof {
            let cs = body_of(pre@, h).colliders;
            assert(has_collider(cs, collider)) by {
                assert(cs[k as int].collider == collider);
            }
            lemma_first_collider_index(cs, collider);
            assert(first_collider_index(cs, collider) == k as int);
            lemma_sums_remove(cs, k as int);
            lemma_sums_nonneg(cs.remove(k as int));
            lemma_body_update(pre, *self, h, without_collider(body_of(pre@, h), collider));
        }
        Ok(true)
    }
}

/// After one occupied slot's body has been rewritten in place, the store is
/// well-formed again and its abstract value is `update_body` of the new
/// body's snapshot.
proof fn lemma_body_update(pre: RigidBodySet, post: RigidBodySet, h: Handle, nb: BodySnap)
    requires
        pre.wf(),
        valid_handle(pre@, h),
        post.free@ == pre.free@,
        post.slots@.len() == pre.slots@.len(),
        forall|i: int|
            0 <= i < pre.slots@.len() && i != h.index ==> post.slots@[i] == pre.slots@[i],
        post.slots@[h.index as int].generation == h.generation,
        post.slots@[h.index as int].body is Some,
        post.slots@[h.index as int].body->Some_0@ == nb,
        body_wf(nb),
    ensures
        post.wf(),
        post@ == update_body(pre@, h, nb),
{
    assert(post@ =~~= update_body(pre@, h, nb));
    assert forall|i: int|
        0 <= i < post.free@.len() implies (#[trigger] post.free@[i]) < post.slots@.len()
        && post.slots@[post.free@[i] as int].body is None
        && post.slots@[post.free@[i] as int].generation < u64::MAX by {
        assert(pre.free@[i] < pre.slots@.len());
        assert(pre.free@[i] != h.index);
    }
    assert forall|i: int|
        0 <= i < post.slots@.len() && (#[trigger] post.slots@[i]).body is Some implies post.slots@[
        i].generation < u64::MAX by {
        if i != h.index {
            assert(post.slots@[i] == pre.slots@[i]);
        }
    }
    assert forall|i: int|
        0 <= i < post@.slots.len() && post@.slots[i].body is Some implies body_wf(
        #[trigger] post@.slots[i].body->Some_0,
    ) by {
        if i != h.index {
            assert(post@.slots[i] == pre@.slots[i]);
            assert(body_wf(pre@.slots[i].body->Some_0));
        }
    }
}

} // verus!

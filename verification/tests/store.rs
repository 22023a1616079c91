use rigid_store::body::{next_sleep_state, BodyType};
use rigid_store::math::{Quat, Vec3, RECIP_UNIT};
use rigid_store::set::{Handle, RigidBodySet, StoreError};

fn dynamic_body(s: &mut RigidBodySet) -> Handle {
    s.insert(BodyType::Dynamic)
}

#[test]
fn fresh_body_has_default_state() {
    let mut s = RigidBodySet::new();
    let h = dynamic_body(&mut s);
    assert_eq!(s.translation(h), Ok(Vec3 { x: 0, y: 0, z: 0 }));
    assert_eq!(s.rotation(h), Ok(Quat { x: 0, y: 0, z: 0, w: 1 }));
    assert_eq!(s.predicted_translation(h), Ok(Vec3 { x: 0, y: 0, z: 0 }));
    assert_eq!(s.predicted_rotation(h), Ok(Quat { x: 0, y: 0, z: 0, w: 1 }));
    assert_eq!(s.linear_velocity(h), Ok(Vec3 { x: 0, y: 0, z: 0 }));
    assert_eq!(s.angular_velocity(h), Ok(Vec3 { x: 0, y: 0, z: 0 }));
    assert_eq!(s.mass(h), Ok(0));
    assert_eq!(s.inverse_mass(h), Ok(0));
    assert_eq!(s.num_colliders(h), Ok(0));
    assert_eq!(s.is_sleeping(h), Ok(false));
    assert_eq!(s.body_type(h), Ok(BodyType::Dynamic));
    assert_eq!(s.is_dynamic(h), Ok(true));
    assert_eq!(s.is_static(h), Ok(false));
    assert_eq!(s.is_kinematic(h), Ok(false));
}

#[test]
fn set_translation_then_read_returns_it_exactly() {
    let mut s = RigidBodySet::new();
    let h = dynamic_body(&mut s);
    let p = Vec3 { x: -17, y: 4_000_000_000, z: 23 };
    assert_eq!(s.set_translation(h, p, true), Ok(()));
    assert_eq!(s.translation(h), Ok(p));
}

#[test]
fn set_translation_without_wake_still_applies_pose() {
    let mut s = RigidBodySet::new();
    let h = dynamic_body(&mut s);
    s.sleep(h).unwrap();
    let p = Vec3 { x: 9, y: 8, z: 7 };
    assert_eq!(s.set_translation(h, p, false), Ok(()));
    assert_eq!(s.translation(h), Ok(p));
    assert_eq!(s.is_sleeping(h), Ok(true));
}

#[test]
fn set_translation_with_wake_wakes_the_body() {
    let mut s = RigidBodySet::new();
    let h = dynamic_body(&mut s);
    s.sleep(h).unwrap();
    assert_eq!(s.set_translation(h, Vec3 { x: 1, y: 2, z: 3 }, true), Ok(()));
    assert_eq!(s.is_sleeping(h), Ok(false));
}

#[test]
fn zero_rotation_is_silently_ignored() {
    let mut s = RigidBodySet::new();
    let h = dynamic_body(&mut s);
    let q = Quat { x: 3, y: 0, z: 4, w: 5 };
    assert_eq!(s.set_rotation(h, q, true), Ok(()));
    assert_eq!(s.rotation(h), Ok(q));
    // The degenerate quaternion leaves the rotation untouched, and the
    // sleeping state too: the whole call is a no-op.
    s.sleep(h).unwrap();
    assert_eq!(s.set_rotation(h, Quat { x: 0, y: 0, z: 0, w: 0 }, true), Ok(()));
    assert_eq!(s.rotation(h), Ok(q));
    assert_eq!(s.is_sleeping(h), Ok(true));
}

#[test]
fn set_rotation_round_trips_exactly() {
    let mut s = RigidBodySet::new();
    let h = dynamic_body(&mut s);
    let q = Quat { x: 1, y: -2, z: 3, w: -4 };
    assert_eq!(s.set_rotation(h, q, false), Ok(()));
    assert_eq!(s.rotation(h), Ok(q));
}

#[test]
fn impulse_changes_velocity_by_impulse_times_inverse_mass() {
    let mut s = RigidBodySet::new();
    let h = dynamic_body(&mut s);
    // One collider of mass 4: inverse mass is RECIP_UNIT / 4.
    s.attach_collider(h, 1, 4, 4).unwrap();
    assert_eq!(s.inverse_mass(h), Ok((RECIP_UNIT / 4) as i64));
    assert_eq!(s.apply_impulse(h, Vec3 { x: 2, y: -4, z: 0 }, true), Ok(()));
    assert_eq!(
        s.linear_velocity(h),
        Ok(Vec3 { x: 500_000, y: -1_000_000, z: 0 })
    );
}

#[test]
fn impulse_on_static_body_leaves_velocity_zero() {
    let mut s = RigidBodySet::new();
    let h = s.insert(BodyType::Static);
    s.attach_collider(h, 1, 4, 4).unwrap();
    assert_eq!(s.apply_impulse(h, Vec3 { x: 2, y: -4, z: 0 }, true), Ok(()));
    assert_eq!(s.linear_velocity(h), Ok(Vec3 { x: 0, y: 0, z: 0 }));
}

#[test]
fn impulse_on_kinematic_body_leaves_velocity_zero() {
    let mut s = RigidBodySet::new();
    let h = s.insert(BodyType::Kinematic);
    s.attach_collider(h, 1, 4, 4).unwrap();
    assert_eq!(s.apply_impulse(h, Vec3 { x: 5, y: 5, z: 5 }, true), Ok(()));
    assert_eq!(s.linear_velocity(h), Ok(Vec3 { x: 0, y: 0, z: 0 }));
}

#[test]
fn impulse_on_massless_body_changes_nothing() {
    let mut s = RigidBodySet::new();
    let h = dynamic_body(&mut s);
    assert_eq!(s.inverse_mass(h), Ok(0));
    assert_eq!(s.apply_impulse(h, Vec3 { x: 100, y: 100, z: 100 }, true), Ok(()));
    assert_eq!(s.linear_velocity(h), Ok(Vec3 { x: 0, y: 0, z: 0 }));
}

#[test]
fn wake_up_is_idempotent() {
    let mut s = RigidBodySet::new();
    let h = dynamic_body(&mut s);
    s.sleep(h).unwrap();
    assert_eq!(s.wake_up(h), Ok(()));
    let first = (
        s.is_sleeping(h),
        s.translation(h),
        s.linear_velocity(h),
        s.force(h),
    );
    assert_eq!(s.wake_up(h), Ok(()));
    let second = (
        s.is_sleeping(h),
        s.translation(h),
        s.linear_velocity(h),
        s.force(h),
    );
    assert_eq!(first, second);
    assert_eq!(s.is_sleeping(h), Ok(false));
}

#[test]
fn force_on_sleeping_body_without_wake_is_discarded() {
    let mut s = RigidBodySet::new();
    let h = dynamic_body(&mut s);
    s.sleep(h).unwrap();
    assert_eq!(s.apply_force(h, Vec3 { x: 10, y: 0, z: 0 }, false), Ok(()));
    // Still sleeping, nothing accumulated: excluded from the next pass.
    assert_eq!(s.is_sleeping(h), Ok(true));
    assert_eq!(s.force(h), Ok(Vec3 { x: 0, y: 0, z: 0 }));
}

#[test]
fn force_on_sleeping_body_with_wake_is_applied() {
    let mut s = RigidBodySet::new();
    let h = dynamic_body(&mut s);
    s.sleep(h).unwrap();
    assert_eq!(s.apply_force(h, Vec3 { x: 10, y: 0, z: 0 }, true), Ok(()));
    assert_eq!(s.is_sleeping(h), Ok(false));
    assert_eq!(s.force(h), Ok(Vec3 { x: 10, y: 0, z: 0 }));
}

#[test]
fn forces_accumulate_on_awake_dynamic_bodies() {
    let mut s = RigidBodySet::new();
    let h = dynamic_body(&mut s);
    assert_eq!(s.apply_force(h, Vec3 { x: 1, y: 2, z: 3 }, false), Ok(()));
    assert_eq!(s.apply_force(h, Vec3 { x: 10, y: 20, z: 30 }, false), Ok(()));
    assert_eq!(s.force(h), Ok(Vec3 { x: 11, y: 22, z: 33 }));
}

#[test]
fn clearing_accumulators_resets_force_and_torque() {
    let mut s = RigidBodySet::new();
    let h = dynamic_body(&mut s);
    s.apply_force(h, Vec3 { x: 4, y: 5, z: 6 }, true).unwrap();
    s.apply_torque(h, Vec3 { x: 1, y: 1, z: 1 }, true).unwrap();
    assert_eq!(s.clear_accumulators(h), Ok(()));
    assert_eq!(s.force(h), Ok(Vec3 { x: 0, y: 0, z: 0 }));
    assert_eq!(s.torque(h), Ok(Vec3 { x: 0, y: 0, z: 0 }));
    assert_eq!(s.clear_accumulators(Handle { index: 9, generation: 9 }), Err(StoreError::NotFound));
}

#[test]
fn force_on_static_body_is_a_no_op() {
    let mut s = RigidBodySet::new();
    let h = s.insert(BodyType::Static);
    assert_eq!(s.apply_force(h, Vec3 { x: 10, y: 0, z: 0 }, true), Ok(()));
    assert_eq!(s.force(h), Ok(Vec3 { x: 0, y: 0, z: 0 }));
}

#[test]
fn torque_accumulates_and_torque_impulse_spins() {
    let mut s = RigidBodySet::new();
    let h = dynamic_body(&mut s);
    // One collider of inertia 2: inverse inertia is RECIP_UNIT / 2.
    s.attach_collider(h, 1, 2, 2).unwrap();
    assert_eq!(s.apply_torque(h, Vec3 { x: 0, y: 7, z: 0 }, true), Ok(()));
    assert_eq!(s.torque(h), Ok(Vec3 { x: 0, y: 7, z: 0 }));
    assert_eq!(s.apply_torque_impulse(h, Vec3 { x: 0, y: 0, z: 3 }, true), Ok(()));
    assert_eq!(
        s.angular_velocity(h),
        Ok(Vec3 { x: 0, y: 0, z: 1_500_000 })
    );
}

#[test]
fn force_at_point_adds_lever_torque() {
    let mut s = RigidBodySet::new();
    let h = dynamic_body(&mut s);
    s.set_translation(h, Vec3 { x: 1, y: 0, z: 0 }, true).unwrap();
    // Lever arm (0, 2, 0) about the center of mass, force (0, 0, 5):
    // torque is lever x force = (10, 0, 0).
    let point = Vec3 { x: 1, y: 2, z: 0 };
    let f = Vec3 { x: 0, y: 0, z: 5 };
    assert_eq!(s.apply_force_at_point(h, f, point, true), Ok(()));
    assert_eq!(s.force(h), Ok(f));
    assert_eq!(s.torque(h), Ok(Vec3 { x: 10, y: 0, z: 0 }));
}

#[test]
fn impulse_at_point_changes_both_velocities() {
    let mut s = RigidBodySet::new();
    let h = dynamic_body(&mut s);
    // Mass 2 and inertia 4: inverse mass 500_000, inverse inertia 250_000.
    s.attach_collider(h, 1, 2, 4).unwrap();
    // Lever arm (0, 3, 0), impulse (6, 0, 0): lever x j = (0, 0, -18).
    let point = Vec3 { x: 0, y: 3, z: 0 };
    let j = Vec3 { x: 6, y: 0, z: 0 };
    assert_eq!(s.apply_impulse_at_point(h, j, point, true), Ok(()));
    assert_eq!(
        s.linear_velocity(h),
        Ok(Vec3 { x: 3_000_000, y: 0, z: 0 })
    );
    assert_eq!(
        s.angular_velocity(h),
        Ok(Vec3 { x: 0, y: 0, z: -4_500_000 })
    );
}

#[test]
fn kinematic_targets_apply_only_to_kinematic_bodies() {
    let mut s = RigidBodySet::new();
    let k = s.insert(BodyType::Kinematic);
    let d = s.insert(BodyType::Dynamic);
    let p = Vec3 { x: 5, y: 6, z: 7 };
    let q = Quat { x: 0, y: 1, z: 0, w: 1 };
    assert_eq!(s.set_next_kinematic_translation(k, p), Ok(()));
    assert_eq!(s.set_next_kinematic_rotation(k, q), Ok(()));
    assert_eq!(s.predicted_translation(k), Ok(p));
    assert_eq!(s.predicted_rotation(k), Ok(q));
    // On a non-Kinematic body both calls are documented no-ops.
    assert_eq!(s.set_next_kinematic_translation(d, p), Ok(()));
    assert_eq!(s.set_next_kinematic_rotation(d, q), Ok(()));
    assert_eq!(s.predicted_translation(d), Ok(Vec3 { x: 0, y: 0, z: 0 }));
    assert_eq!(s.predicted_rotation(d), Ok(Quat { x: 0, y: 0, z: 0, w: 1 }));
    // The zero quaternion is ignored for the kinematic target too.
    assert_eq!(s.set_next_kinematic_rotation(k, Quat { x: 0, y: 0, z: 0, w: 0 }), Ok(()));
    assert_eq!(s.predicted_rotation(k), Ok(q));
    // Kinematic target setting never wakes the body.
    s.sleep(k).unwrap();
    assert_eq!(s.set_next_kinematic_translation(k, Vec3 { x: 8, y: 8, z: 8 }), Ok(()));
    assert_eq!(s.is_sleeping(k), Ok(true));
}

#[test]
fn colliders_drive_mass_properties() {
    let mut s = RigidBodySet::new();
    let h = dynamic_body(&mut s);
    s.attach_collider(h, 10, 3, 6).unwrap();
    s.attach_collider(h, 11, 5, 2).unwrap();
    assert_eq!(s.num_colliders(h), Ok(2));
    assert_eq!(s.mass(h), Ok(8));
    assert_eq!(s.inverse_mass(h), Ok((RECIP_UNIT / 8) as i64));
    assert_eq!(s.inverse_inertia(h), Ok((RECIP_UNIT / 8) as i64));
    assert_eq!(s.detach_collider(h, 10), Ok(true));
    assert_eq!(s.num_colliders(h), Ok(1));
    assert_eq!(s.mass(h), Ok(5));
    assert_eq!(s.inverse_mass(h), Ok((RECIP_UNIT / 5) as i64));
    // Detaching a collider that is not attached reports false.
    assert_eq!(s.detach_collider(h, 10), Ok(false));
    // Detaching the last one makes the body massless again.
    assert_eq!(s.detach_collider(h, 11), Ok(true));
    assert_eq!(s.mass(h), Ok(0));
    assert_eq!(s.inverse_mass(h), Ok(0));
}

#[test]
fn removal_invalidates_the_handle_and_reports_colliders() {
    let mut s = RigidBodySet::new();
    let h = dynamic_body(&mut s);
    s.attach_collider(h, 41, 1, 1).unwrap();
    s.attach_collider(h, 42, 1, 1).unwrap();
    let ids = s.remove(h).unwrap();
    assert_eq!(ids, vec![41, 42]);
    assert!(!s.contains(h));
    assert_eq!(s.translation(h), Err(StoreError::NotFound));
    assert_eq!(s.num_colliders(h), Err(StoreError::NotFound));
    assert_eq!(s.remove(h), Err(StoreError::NotFound));
}

#[test]
fn reused_slot_does_not_resurrect_a_stale_handle() {
    let mut s = RigidBodySet::new();
    let h1 = dynamic_body(&mut s);
    s.remove(h1).unwrap();
    let h2 = s.insert(BodyType::Static);
    // The slot is reused, but the generation tells the handles apart.
    assert_eq!(h2.index, h1.index);
    assert_ne!(h2.generation, h1.generation);
    assert!(!s.contains(h1));
    assert!(s.contains(h2));
    assert_eq!(s.translation(h1), Err(StoreError::NotFound));
    assert_eq!(s.body_type(h2), Ok(BodyType::Static));
}

#[test]
fn inserting_more_bodies_leaves_existing_ones_untouched() {
    let mut s = RigidBodySet::new();
    let h1 = dynamic_body(&mut s);
    let p = Vec3 { x: 12, y: -34, z: 56 };
    s.set_translation(h1, p, true).unwrap();
    let h2 = s.insert(BodyType::Kinematic);
    let h3 = s.insert(BodyType::Static);
    assert_ne!(h1, h2);
    assert_ne!(h2, h3);
    assert_eq!(s.translation(h1), Ok(p));
    assert_eq!(s.body_type(h1), Ok(BodyType::Dynamic));
    assert_eq!(s.body_type(h2), Ok(BodyType::Kinematic));
    assert_eq!(s.body_type(h3), Ok(BodyType::Static));
}

#[test]
fn unknown_handles_report_not_found_everywhere() {
    let mut s = RigidBodySet::new();
    let ghost = Handle { index: 3, generation: 0 };
    assert_eq!(s.translation(ghost), Err(StoreError::NotFound));
    assert_eq!(s.rotation(ghost), Err(StoreError::NotFound));
    assert_eq!(s.linear_velocity(ghost), Err(StoreError::NotFound));
    assert_eq!(s.mass(ghost), Err(StoreError::NotFound));
    assert_eq!(s.body_type(ghost), Err(StoreError::NotFound));
    assert_eq!(s.set_translation(ghost, Vec3 { x: 1, y: 1, z: 1 }, true), Err(StoreError::NotFound));
    assert_eq!(s.set_rotation(ghost, Quat { x: 0, y: 0, z: 0, w: 1 }, true), Err(StoreError::NotFound));
    assert_eq!(s.wake_up(ghost), Err(StoreError::NotFound));
    assert_eq!(s.apply_force(ghost, Vec3 { x: 1, y: 1, z: 1 }, true), Err(StoreError::NotFound));
    assert_eq!(s.apply_impulse(ghost, Vec3 { x: 1, y: 1, z: 1 }, true), Err(StoreError::NotFound));
    assert_eq!(s.attach_collider(ghost, 1, 1, 1), Err(StoreError::NotFound));
    assert_eq!(s.detach_collider(ghost, 1), Err(StoreError::NotFound));
}

#[test]
fn sleep_transition_logic_is_pure() {
    assert_eq!(next_sleep_state(true, false), true);
    assert_eq!(next_sleep_state(true, true), false);
    assert_eq!(next_sleep_state(false, false), false);
    assert_eq!(next_sleep_state(false, true), false);
}

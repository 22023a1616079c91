//! Laws of the store, each proved over the same snapshot transitions that
//! the executable operations are specified by, so that what is shown here
//! is exactly what the operations' contracts promise.

use vstd::prelude::*;
use crate::body::{
    body_wf, woken, with_translation, with_rotation, after_force, after_impulse,
};
use crate::math::{
    Vec3, Quat, quat_is_zero, vadd, vadd_fits, scaled_add_fits, vec3_zero, is_zero_vec,
};
use crate::set::{
    SetSnap, Handle, valid_handle, body_of, update_body, after_remove, set_wf,
};

verus! {

/// Law: setting the translation of a live body and then reading the
/// translation gives back exactly the vector that was set, whatever the
/// wake-up flag was.
pub proof fn lemma_set_translation_round_trip(s: SetSnap, h: Handle, p: Vec3, wake_up: bool)
    requires
        valid_handle(s, h),
    ensures
        valid_handle(update_body(s, h, with_translation(woken(body_of(s, h), wake_up), p)), h),
        body_of(
            update_body(s, h, with_translation(woken(body_of(s, h), wake_up), p)),
            h,
        ).translation == p,
{
}

/// Law: setting a non-degenerate rotation of a live body and then reading
/// the rotation gives back exactly the quaternion that was set — the same
/// orientation, in the same representative.
pub proof fn lemma_set_rotation_round_trip(s: SetSnap, h: Handle, q: Quat, wake_up: bool)
    requires
        valid_handle(s, h),
        !quat_is_zero(q),
    ensures
        body_of(update_body(s, h, with_rotation(woken(body_of(s, h), wake_up), q)), h).rotation
            == q,
{
}

/// Law: an impulse reaching a live Dynamic body (awake, or woken by the
/// call) changes its linear velocity by exactly the impulse times the
/// body's inverse mass, componentwise.
pub proof fn lemma_impulse_changes_velocity_exactly(s: SetSnap, h: Handle, j: Vec3, wake_up: bool)
    requires
        valid_handle(s, h),
        body_of(s, h).body_type is Dynamic,
        wake_up || !body_of(s, h).sleeping,
        scaled_add_fits(body_of(s, h).linvel, j, body_of(s, h).inv_mass),
    ensures
        ({
            let b = body_of(s, h);
            let nb = body_of(update_body(s, h, after_impulse(b, j, wake_up)), h);
            &&& nb.linvel.x == b.linvel.x + j.x * b.inv_mass
            &&& nb.linvel.y == b.linvel.y + j.y * b.inv_mass
            &&& nb.linvel.z == b.linvel.z + j.z * b.inv_mass
        }),
{
}

/// Law: the same impulse on a live Static body of a well-formed store is
/// ignored: the linear velocity stays exactly zero.
pub proof fn lemma_impulse_on_static_is_ignored(s: SetSnap, h: Handle, j: Vec3, wake_up: bool)
    requires
        valid_handle(s, h),
        set_wf(s),
        body_of(s, h).body_type is Static,
    ensures
        body_of(update_body(s, h, after_impulse(body_of(s, h), j, wake_up)), h).linvel == body_of(
            s,
            h,
        ).linvel,
        body_of(update_body(s, h, after_impulse(body_of(s, h), j, wake_up)), h).linvel
            == vec3_zero(),
{
    assert(body_wf(body_of(s, h)));
    assert(is_zero_vec(body_of(s, h).linvel));
}

/// Law: waking a live body is idempotent — waking it a second time
/// produces exactly the store that one wake produced.
pub proof fn lemma_wake_up_idempotent(s: SetSnap, h: Handle)
    requires
        valid_handle(s, h),
    ensures
        ({
            let once = update_body(s, h, woken(body_of(s, h), true));
            update_body(once, h, woken(body_of(once, h), true)) == once
        }),
{
    let once = update_body(s, h, woken(body_of(s, h), true));
    assert(body_of(once, h) == woken(body_of(s, h), true));
    assert(woken(woken(body_of(s, h), true), true) =~= woken(body_of(s, h), true));
    assert(update_body(once, h, woken(body_of(once, h), true)).slots =~~= once.slots);
    assert(update_body(once, h, woken(body_of(once, h), true)) =~= once);
}

/// Law: a force sent to a sleeping Dynamic body with the wake-up flag
/// clear is discarded entirely — the store is unchanged, so the body
/// stays excluded from the next integration pass — while the same force
/// with the flag set wakes the body and lands in its force accumulator.
pub proof fn lemma_force_on_sleeping_body(s: SetSnap, h: Handle, f: Vec3)
    requires
        valid_handle(s, h),
        body_of(s, h).sleeping,
        body_of(s, h).body_type is Dynamic,
        vadd_fits(body_of(s, h).force, f),
    ensures
        update_body(s, h, after_force(body_of(s, h), f, false)) == s,
        !body_of(update_body(s, h, after_force(body_of(s, h), f, true)), h).sleeping,
        body_of(update_body(s, h, after_force(body_of(s, h), f, true)), h).force == vadd(
            body_of(s, h).force,
            f,
        ),
{
    let b = body_of(s, h);
    assert(after_force(b, f, false) =~= b);
    assert(s.slots[h.index as int] =~= (crate::set::SlotSnap {
        generation: h.generation,
        body: Some(b),
    }));
    assert(update_body(s, h, b).slots =~~= s.slots);
    assert(update_body(s, h, b) =~= s);
}

/// Law: handle uniqueness — two different valid handles never resolve to
/// the same slot, so every live body has exactly one live handle.
pub proof fn lemma_live_handles_unique(s: SetSnap, h1: Handle, h2: Handle)
    requires
        valid_handle(s, h1),
        valid_handle(s, h2),
        h1 != h2,
    ensures
        h1.index != h2.index,
{
}

/// Law: a removed handle never resolves again: after a removal the slot
/// is empty and its generation advanced, so the handle is invalid whatever
/// it resolved to before.
pub proof fn lemma_removed_handle_is_invalid(s: SetSnap, h: Handle)
    requires
        valid_handle(s, h),
    ensures
        !valid_handle(after_remove(s, h), h),
{
    assert(after_remove(s, h).slots[h.index as int].body is None);
}

} // verus!

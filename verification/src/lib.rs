//! A rigid-body store: an indexed collection of rigid-body state records
//! supporting pose query and mutation, velocity query, kinematic-target
//! scheduling, and force/impulse/torque application with sleep/wake
//! bookkeeping.
//!
//! All scalar quantities are exact integers. Inverse mass and inverse
//! inertia are fixed-point values scaled by [`math::RECIP_UNIT`], so every
//! contract in this crate is an exact arithmetic statement.

pub mod body;
pub mod laws;
pub mod math;
pub mod set;

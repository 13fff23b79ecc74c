//! A deterministic procedural star field and a spherical-surface locomotion
//! rig, carried out in fixed-point integer arithmetic so that every step of
//! the geometry is verified.
//!
//! Positions are measured in milli-units (one thousandth of a world unit),
//! angles in millidegrees, and unit-length quantities are scaled by
//! `math::UNIT`.

pub mod coord;
pub mod galaxy;
pub mod math;
pub mod quat;
pub mod rig;
pub mod rng;
pub mod vec3;

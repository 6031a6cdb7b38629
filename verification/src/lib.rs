//! A small sphere ray tracer over saturating fixed-point arithmetic.
//!
//! One ray is cast per output pixel from a movable camera; each ray is
//! resolved to a color by nearest-hit sphere intersection, an
//! ambient/diffuse/specular lighting model with shadow tests, and a
//! bounded-depth recursive reflection trace.  All scalars are fixed-point
//! integers (`fixed::SCALE` units to one), so every arithmetic step has an
//! exact mathematical meaning that the function contracts state.

pub mod camera;
pub mod canvas;
pub mod color;
pub mod game;
pub mod fixed;
pub mod ray;
pub mod vec3;

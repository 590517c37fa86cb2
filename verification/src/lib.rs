//! A small relativistic visualization engine.
//!
//! Scenes live in a four-dimensional spacetime with a flat Minkowski metric of
//! signature (-,+,+,+).  A camera placed in an arbitrary orthonormal reference
//! frame shoots one ray per pixel; each ray is marched through the global
//! coordinate chart by discrete geodesic steps until it leaves a bounding box
//! or strikes a collider, which yields that collider's color.
//!
//! All quantities are fixed-point numbers: a world unit is `num::SCALE` raw
//! units, and every contract states the integer arithmetic performed, exactly.

pub mod camera;
pub mod geometry;
pub mod laws;
pub mod metric;
pub mod objects;
pub mod render;
pub mod num;

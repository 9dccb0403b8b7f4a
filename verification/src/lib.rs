//! A deterministic fixed-point 2D continuous-collision core: a single
//! point particle advanced through static rounded-polyline obstacles,
//! with exact integer arithmetic throughout.
//!
//! The layers, leaves first: `fx32` (fixed-point scalars), `vec2` and
//! `vec4` (vectors), `ray2` (the moving-point description), `circle`,
//! `wide_line` and `arc` (obstacle primitives), `polycapsule` (their
//! composition into rounded polylines), `basis` (the ray-aligned
//! frame), `raytraceresult` (the tri-state outcome and its fold),
//! `raytrace` (the swept tests and the tick integrator), and
//! `cherenkov` (the simulation context a host drives).

pub mod arc;
pub mod basis;
pub mod cherenkov;
pub mod circle;
pub mod fx32;
pub mod polycapsule;
pub mod ray2;
pub mod raytrace;
pub mod raytraceresult;
pub mod vec2;
pub mod vec4;
pub mod wide_line;

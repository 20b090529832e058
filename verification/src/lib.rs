//! Capped-cylinder meshes and camera movement decisions.
//!
//! The mesh is described combinatorially: which sample of the unit circle a
//! vertex sits on, which rim it belongs to and which kind of normal it carries.
//! Scaling by a radius and a height is left to the renderer.

pub mod camera;
pub mod cylinder;
pub mod surface;

//! A small fixed-point solar-system visualizer: bodies orbit a central body
//! in the XZ plane and are projected through a simplified perspective camera
//! onto a software framebuffer.
//!
//! All scalar quantities (world coordinates, angles in radians, zoom factors)
//! are Q16.16 fixed-point numbers stored in `i64`: the raw value is the real
//! quantity times 65536.

pub mod camera;
pub mod fixed;
pub mod framebuffer;
pub mod solar_system;
pub mod trig;
pub mod vec3;

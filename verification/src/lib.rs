//! A verified core for a free-flying camera and a multi-light scene.
//!
//! The library decides; a thin shell around it talks to the window and to the
//! graphics device. Numbers are fixed-point integers (see [`units`]), so every
//! contract states an exact result.
//!
//! - [`units`]: fixed-point arithmetic.
//! - [`vector`]: three-component vectors, cross product, unit length.
//! - [`camera`]: the camera and its limits.
//! - [`device`]: the commands that the graphics device is given.
//! - [`shader`]: making a shader program, and setting its uniforms.
//! - [`names`]: how uniforms are named.
//! - [`light`]: the lights and their uploads.
//! - [`texture`]: from a decoded image to a texture upload.
//! - [`input`]: what the window reports, and what it does to the camera.
//! - [`frame`]: the commands of one frame.

pub mod units;
pub mod vector;
pub mod camera;
pub mod device;
pub mod shader;
pub mod names;
pub mod light;
pub mod texture;
pub mod input;
pub mod frame;

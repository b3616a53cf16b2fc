//! Verified core of a Gaussian splat viewer.
pub mod animation;
pub mod bytes;
pub mod cloud;
pub mod device;
pub mod events;
pub mod header;
pub mod laws;
pub mod laws_cloud;
pub mod laws_device;
pub mod laws_motion;
pub mod laws_text;
pub mod ply;
pub mod requests;
pub mod shaders;
pub mod sort;
pub mod splat;
pub mod surface;
pub mod text;
pub mod time;
pub mod views;
pub mod window;

//! Core of a terminal mesh renderer: the frame compositor that turns two
//! rendered RGBA pixel buffers into the minimal set of terminal cell writes,
//! the smoothed frame-time estimator behind the FPS overlay, and the geometry
//! validation that guards the GPU upload.

pub mod compositor;
pub mod digits;
pub mod geometry;
pub mod frame;
pub mod timing;

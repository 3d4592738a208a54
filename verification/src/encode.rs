//! The V4L2 H.264 encoder.

pub mod conduct;
pub mod laws;
pub mod open;
pub mod params;
pub mod pending;
pub mod pools;
pub mod setup;
pub mod v4l2;

//! Capture sources.

pub mod camera;

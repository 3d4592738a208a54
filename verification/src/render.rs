//! Handing pictures to a renderer.

pub mod dmabuf;

//! Hardware video plumbing for a live broadcast: the decisions behind the V4L2
//! memory-to-memory codecs, the Android MediaCodec decoder, PipeWire camera
//! selection, and DMA-BUF import.
//!
//! Nothing here opens a device. Each module holds the layout arithmetic, the
//! bookkeeping, and the next step to take; the surrounding program performs the
//! step against the kernel or the platform and reports what came back.

pub mod capture;
pub mod decode;
pub mod encode;
pub mod error;
pub mod frame;
pub mod message;
pub mod payload;
pub mod render;
pub mod text;
pub mod time;
pub mod v4l2;

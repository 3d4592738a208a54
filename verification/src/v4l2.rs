//! The V4L2 memory-to-memory interface both codec backends share.
//!
//! The driver, not the caller, decides the raw layout. `VIDIOC_S_FMT` is a
//! negotiation, and the format that comes back can carry a different fourcc, a
//! wider stride, and more rows than were asked for. [`planes::Planes`] reads
//! that answer and is the only thing either backend consults about where chroma
//! lives.

pub mod format;
pub mod fourcc;
pub mod planes;
pub mod copy;
pub mod picture;
pub mod laws;
pub mod placement;
pub mod queue;
pub mod device;
pub mod search;

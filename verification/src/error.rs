//! Why a codec, a capture source, or a renderer refused.

use vstd::prelude::*;

use crate::frame::Size;

verus! {

/// Everything this library reports as a failure.
#[derive(Clone, Debug, PartialEq, Eq)]
pub enum Error {
    /// A 4:2:0 picture needs both dimensions to be even and non-zero.
    InvalidSize { size: Size },
    /// Raw samples that are not the length their dimensions call for.
    InvalidLength { len: usize, size: Size },
    /// The driver settled on a coded size smaller than the picture.
    Negotiated { coded: Size, size: Size },
    /// The driver chose a raw format nothing here can lay out.
    UnsupportedRaw { pixelformat: u32 },
    /// The driver reported a format with no planes at all.
    NoPlanes,
    /// The driver chose a planar format with too few planes for it.
    MissingPlanes { pixelformat: u32, planes: usize },
    /// A mapped buffer is smaller than its format implies.
    Short { len: usize, needed: usize },
    /// The driver granted no buffers at all.
    NoBuffers,
    /// The node is no M2M device.
    NotM2m,
    /// The node does only single-planar M2M.
    SinglePlanar,
    /// The node does not convert what a codec needs.
    Unsuitable { what: String },
    /// No node does what a codec needs.
    NoDevice { what: String },
    /// What was asked of the device failed, and whoever asked has the cause.
    Refused,
    /// A frame of another size than the encoder was opened for.
    FrameSize { opened: Size, given: Size },
    /// The encoder took every input buffer and gave none back in time.
    EncoderStalled,
    /// The encoder was told to stop and did not finish in time.
    DrainStalled { frames: usize },
    /// The encoder kept frames it never answered.
    FramesHeld { frames: usize },
    /// The encoder answered a request for H.264 with something else.
    EncoderFormat { pixelformat: u32 },
    /// The decoder answered a request for H.264 with something else.
    DecoderFormat { pixelformat: u32 },
    /// The decoder took every input buffer and gave none back in time.
    DecoderStalled,
    /// An access unit larger than the decoder's input buffers.
    Oversized { len: usize, capacity: usize },
    /// The decoder never reported the size of the stream. Nanoseconds waited.
    SizeUnknown { waited: u64 },
    /// The decoder produces nothing that can be laid out here.
    NoRawFormat { pixelformat: u32 },
    /// A decoder that only does H.264 was asked for something else.
    H264Only,
    /// MediaCodec never freed an input buffer.
    InputStarved,
    /// A MediaCodec input buffer too small for an access unit.
    InputTooSmall { capacity: usize, len: usize },
    /// MediaCodec produced an image with nothing to show.
    NotAPicture { width: i32, height: i32 },
    /// A capture source is not there.
    SourceUnavailable { what: String },
    /// The user or the system refused access to a capture source.
    PermissionDenied { what: String },
    /// A call to PipeWire or its portal failed.
    PipeWire { what: &'static str, cause: String },
    /// PipeWire did not list its objects in time.
    ScanStalled,
    /// A picture could not be handed to the renderer.
    Render { what: String },
    /// The encoder does not take a new bitrate.
    BitrateUnsupported,
    /// A presentation time too far out to send.
    TimestampRange { micros: u64 },
}

} // verus!

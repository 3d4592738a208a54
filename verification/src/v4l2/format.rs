//! What a queue is asked for, and what the driver answers.

use vstd::prelude::*;

use crate::frame::{Color, Size};

verus! {

/// Which queue of an M2M device, named the way V4L2 names them: from the
/// driver's point of view, not ours.
#[derive(Clone, Copy, Debug, PartialEq, Eq, Structural)]
pub enum Dir {
    /// What userspace feeds the device: raw frames to an encoder, coded bytes to
    /// a decoder.
    Output,
    /// What the device hands back: coded bytes from an encoder, raw frames from a
    /// decoder.
    Capture,
}

/// `V4L2_BUF_TYPE_VIDEO_OUTPUT_MPLANE`.
pub const BUF_TYPE_OUTPUT: u32 = 10;

/// `V4L2_BUF_TYPE_VIDEO_CAPTURE_MPLANE`.
pub const BUF_TYPE_CAPTURE: u32 = 9;

impl Dir {
    /// The multi-planar buffer type of the queue.
    pub fn buf_type(self) -> (r: u32)
        ensures
            r == match self {
                Dir::Output => BUF_TYPE_OUTPUT,
                Dir::Capture => BUF_TYPE_CAPTURE,
            },
    {
        match self {
            Dir::Output => BUF_TYPE_OUTPUT,
            Dir::Capture => BUF_TYPE_CAPTURE,
        }
    }
}

/// What to ask a queue for. The driver answers with a [`Format`] that may differ
/// in every field.
#[derive(Clone, Copy, Debug, PartialEq, Eq, Structural)]
pub struct Request {
    /// The fourcc to ask for.
    pub pixelformat: u32,
    /// The picture size to ask for.
    pub size: Size,
    /// Buffer size to ask for, which a compressed queue needs because the driver
    /// cannot size an access unit from the picture dimensions. `None` leaves the
    /// driver's own estimate, which is what a raw queue wants.
    pub sizeimage: Option<u32>,
    /// The color space of the samples. An encoder driver that fills the VUI reads
    /// it from here, so the bitstream says what the pixels actually are.
    pub color: Option<Color>,
}

/// One plane of a negotiated [`Format`].
#[derive(Clone, Copy, Debug, PartialEq, Eq, Structural)]
pub struct Plane {
    /// Bytes between the starts of adjacent rows, at least the row's width and
    /// usually more.
    pub stride: u32,
    /// Bytes the driver wants this plane's buffer to be, alignment padding
    /// included.
    pub sizeimage: u32,
}

/// The format a queue negotiated, read back from the driver's answer rather than
/// assumed from the request.
#[derive(Clone, Debug)]
pub struct Format {
    /// The fourcc the driver chose, which need not be the one asked for.
    pub pixelformat: u32,
    /// The coded size, at least the requested one and rounded up to whatever the
    /// hardware aligns to.
    pub size: Size,
    /// One entry per plane, in plane order.
    pub planes: Vec<Plane>,
}

/// Planes a format may use here: Y, U, and V.
pub const MAX_PLANES: usize = 3;

/// `V4L2_FIELD_NONE`: progressive frames.
pub const FIELD_NONE: u32 = 1;

/// `V4L2_COLORSPACE_SMPTE170M`.
pub const COLORSPACE_SMPTE170M: u32 = 1;

/// `V4L2_COLORSPACE_REC709`.
pub const COLORSPACE_REC709: u32 = 3;

/// `V4L2_YCBCR_ENC_601`.
pub const YCBCR_ENC_601: u8 = 1;

/// `V4L2_YCBCR_ENC_709`.
pub const YCBCR_ENC_709: u8 = 2;

/// `V4L2_XFER_FUNC_709`.
pub const XFER_FUNC_709: u8 = 1;

/// `V4L2_QUANTIZATION_FULL_RANGE`.
pub const QUANTIZATION_FULL_RANGE: u8 = 1;

/// `V4L2_QUANTIZATION_LIM_RANGE`.
pub const QUANTIZATION_LIM_RANGE: u8 = 2;

/// The fields of a `v4l2_pix_format_mplane` that a negotiation reads or sets.
/// The rest of the struct stays as `VIDIOC_G_FMT` left it.
#[derive(Clone, Copy, Debug)]
pub struct PixFormat {
    pub width: u32,
    pub height: u32,
    pub pixelformat: u32,
    pub field: u32,
    pub colorspace: u32,
    /// Per plane, `bytesperline` and `sizeimage`.
    pub plane_fmt: [Plane; 8],
    pub num_planes: u8,
    pub ycbcr_enc: u8,
    pub quantization: u8,
    pub xfer_func: u8,
}

/// The color fields a request leaves in the struct: what it asks for, or what
/// was there.
pub open spec fn color_fields(color: Option<Color>, before: PixFormat) -> (u32, u8, u8, u8) {
    match color {
        Some(Color::Bt601Limited) => (
            COLORSPACE_SMPTE170M,
            YCBCR_ENC_601,
            XFER_FUNC_709,
            QUANTIZATION_LIM_RANGE,
        ),
        Some(Color::Bt601Full) => (
            COLORSPACE_SMPTE170M,
            YCBCR_ENC_601,
            XFER_FUNC_709,
            QUANTIZATION_FULL_RANGE,
        ),
        Some(Color::Bt709Limited) => (
            COLORSPACE_REC709,
            YCBCR_ENC_709,
            XFER_FUNC_709,
            QUANTIZATION_LIM_RANGE,
        ),
        Some(Color::Bt709Full) => (
            COLORSPACE_REC709,
            YCBCR_ENC_709,
            XFER_FUNC_709,
            QUANTIZATION_FULL_RANGE,
        ),
        None => (before.colorspace, before.ycbcr_enc, before.xfer_func, before.quantization),
    }
}

impl Request {
    /// Write the request over what `VIDIOC_G_FMT` reported, ready for
    /// `VIDIOC_S_FMT`.
    ///
    /// The struct carries fields this does not set (colorimetry defaults,
    /// per-plane sizes), and `bcm2835-codec` rejects an `S_FMT` built from
    /// zeroes.
    pub fn set_format(&self, pix: &mut PixFormat)
        ensures
            final(pix).width == self.size.width,
            final(pix).height == self.size.height,
            final(pix).pixelformat == self.pixelformat,
            final(pix).field == FIELD_NONE,
            final(pix).num_planes == 1,
            final(pix).plane_fmt@ == match self.sizeimage {
                Some(sizeimage) => old(pix).plane_fmt@.update(
                    0,
                    Plane { stride: old(pix).plane_fmt@[0].stride, sizeimage },
                ),
                None => old(pix).plane_fmt@,
            },
            (
                final(pix).colorspace,
                final(pix).ycbcr_enc,
                final(pix).xfer_func,
                final(pix).quantization,
            ) == color_fields(self.color, *old(pix)),
    {
        pix.width = self.size.width;
        pix.height = self.size.height;
        pix.pixelformat = self.pixelformat;
        pix.field = FIELD_NONE;
        // The driver raises this for a format whose planes live in separate
        // buffers; asking for one plane is right for every contiguous format and
        // harmless for the rest.
        pix.num_planes = 1;
        if let Some(sizeimage) = self.sizeimage {
            let stride = pix.plane_fmt[0].stride;
            pix.plane_fmt[0] = Plane { stride, sizeimage };
        }
        if let Some(color) = self.color {
            // SMPTE 170M primaries and matrix with the BT.709 transfer curve: the two
            // curves are defined identically and only 709 has a name everywhere.
            let (colorspace, ycbcr) = match color {
                Color::Bt601Limited | Color::Bt601Full => (COLORSPACE_SMPTE170M, YCBCR_ENC_601),
                Color::Bt709Limited | Color::Bt709Full => (COLORSPACE_REC709, YCBCR_ENC_709),
            };
            pix.colorspace = colorspace;
            pix.ycbcr_enc = ycbcr;
            pix.xfer_func = XFER_FUNC_709;
            pix.quantization = if color.limited() {
                QUANTIZATION_LIM_RANGE
            } else {
                QUANTIZATION_FULL_RANGE
            };
        }
    }
}

/// How many planes of a driver's answer are believed.
pub open spec fn believed_planes(num_planes: u8) -> int {
    if num_planes < 1 {
        1
    } else if num_planes > MAX_PLANES {
        MAX_PLANES as int
    } else {
        num_planes as int
    }
}

/// The format a driver answered with.
pub fn read_format(pix: &PixFormat) -> (format: Format)
    ensures
        format.pixelformat == pix.pixelformat,
        format.size == (Size { width: pix.width, height: pix.height }),
        format.planes@ == pix.plane_fmt@.subrange(0, believed_planes(pix.num_planes)),
{
    let count: usize = if pix.num_planes < 1 {
        1
    } else if pix.num_planes as usize > MAX_PLANES {
        MAX_PLANES
    } else {
        pix.num_planes as usize
    };
    let mut planes: Vec<Plane> = Vec::new();
    while planes.len() < count
        invariant
            planes@.len() <= count <= MAX_PLANES,
            planes@ == pix.plane_fmt@.subrange(0, planes@.len() as int),
        decreases count - planes@.len(),
    {
        let at = planes.len();
        planes.push(pix.plane_fmt[at]);
        assert(planes@ =~= pix.plane_fmt@.subrange(0, planes@.len() as int));
    }
    Format { pixelformat: pix.pixelformat, size: Size::new(pix.width, pix.height), planes }
}

/// A format read back always has a luma plane, and never more planes than a
/// buffer here addresses.
pub proof fn law_a_format_has_planes(num_planes: u8)
    ensures
        1 <= believed_planes(num_planes) <= MAX_PLANES,
{
}

/// A driver is told the color space it is asked for: the primaries and the matrix by the
/// standard, the range by whether the samples leave head and foot room, and one transfer
/// curve for all of them. Asked for none, everything stays as the driver had it.
pub proof fn law_the_color_space_is_told(color: Option<Color>, before: PixFormat)
    ensures
        ({
            let (colorspace, matrix, curve, range) = color_fields(color, before);
            match color {
                None => {
                    &&& colorspace == before.colorspace
                    &&& matrix == before.ycbcr_enc
                    &&& curve == before.xfer_func
                    &&& range == before.quantization
                },
                Some(color) => {
                    &&& curve == 1
                    &&& color is Bt601Limited || color is Bt601Full ==> colorspace == 1 && matrix
                        == 1
                    &&& color is Bt709Limited || color is Bt709Full ==> colorspace == 3 && matrix
                        == 2
                    &&& color is Bt601Full || color is Bt709Full ==> range == 1
                    &&& color is Bt601Limited || color is Bt709Limited ==> range == 2
                },
            }
        }),
{
}

/// As many planes are believed as the driver says, but one at least and three at most.
pub proof fn law_as_many_planes_as_the_driver_says(num_planes: u8)
    ensures
        1 <= num_planes <= 3 ==> believed_planes(num_planes) == num_planes,
        num_planes == 0 ==> believed_planes(num_planes) == 1,
        num_planes > 3 ==> believed_planes(num_planes) == 3,
{
}

} // verus!

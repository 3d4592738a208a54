//! Where a raw 4:2:0 frame's samples sit inside a queue's buffers.
//!
//! A driver answers `VIDIOC_S_FMT` with its own fourcc, its own stride, and its
//! own buffer size, and none of the three has to be what was asked for.
//! `bcm2835-codec` aligns stride to 32 bytes and height to 16 rows, and reports
//! the row padding through `bytesperline` but the row *count* only through
//! `sizeimage`. Chroma therefore starts at `stride * padded_rows`, not at
//! `stride * height`: place it at the visible height and the driver reads zeroes
//! for chroma, which comes out as a green picture.

use vstd::prelude::*;

use super::format::{Format, Plane};
use super::fourcc::{NV12, NV12M, YUV420, YUV420M};
use crate::error::Error;
use crate::frame::Size;

verus! {

/// One component's position within the queue's buffers.
#[derive(Clone, Copy, Debug, PartialEq, Eq, Structural)]
pub struct Component {
    /// Which plane of the buffer it is in.
    pub plane: usize,
    /// Where in that plane its first sample is.
    pub offset: usize,
    /// Bytes between the starts of adjacent rows.
    pub stride: usize,
}

/// Where each component of a picture goes.
#[derive(Clone, Copy, Debug, PartialEq, Eq, Structural)]
pub struct Planes {
    pub y: Component,
    /// Interleaved chroma for a semi-planar format, or the U plane of a planar
    /// one.
    pub u: Component,
    /// The V plane, absent when chroma is interleaved.
    pub v: Option<Component>,
    /// The visible size, which is what gets copied. It is at most the format's
    /// coded size.
    pub size: Size,
}

pub open spec fn max(a: int, b: int) -> int {
    if a < b {
        b
    } else {
        a
    }
}

/// Luma rows before chroma starts: what `sizeimage` has room for, and never
/// fewer than `height`.
pub open spec fn reserved_rows(luma: Plane, height: u32) -> int {
    if luma.stride == 0 {
        height as int
    } else {
        max(2 * luma.sizeimage as int / (3 * luma.stride as int), height as int)
    }
}

impl Format {
    /// Semi-planar: one luma component and one of interleaved chroma.
    pub open spec fn interleaved(&self) -> bool {
        self.pixelformat == NV12 || self.pixelformat == NV12M
    }

    /// Planar: three components.
    pub open spec fn planar(&self) -> bool {
        self.pixelformat == YUV420 || self.pixelformat == YUV420M
    }

    /// The stride of plane `plane`, at least `width` bytes whatever the driver
    /// reported.
    pub open spec fn stride_of(&self, plane: int, width: int) -> int {
        max(self.planes@[plane].stride as int, width)
    }

    pub open spec fn luma_stride(&self) -> int {
        self.stride_of(0, self.size.width as int)
    }

    /// Luma rows the single buffer reserves.
    pub open spec fn rows(&self) -> int {
        reserved_rows(self.planes@[0], self.size.height)
    }

    /// Where chroma starts in a single buffer.
    pub open spec fn chroma_offset(&self) -> int {
        self.luma_stride() * self.rows()
    }

    /// Where the second chroma component starts in a single planar buffer.
    pub open spec fn second_chroma_offset(&self) -> int {
        self.chroma_offset() + (self.luma_stride() / 2) * ((self.rows() + 1) / 2)
    }

    /// The largest offset the layout of a `size` picture needs is one this
    /// machine can count to. Every format a driver can allocate memory for
    /// satisfies this.
    pub open spec fn countable(&self, size: Size) -> bool {
        ({
            &&& size.valid()
            &&& size.width <= self.size.width
            &&& size.height <= self.size.height
            &&& self.interleaved() || self.planar()
            &&& self.planes@.len() > 0
        }) ==> {
            &&& 2 * self.planes@[0].sizeimage <= usize::MAX
            &&& 3 * self.planes@[0].stride <= usize::MAX
            &&& self.planes@.len() == 1 && self.interleaved() ==> self.chroma_offset()
                <= usize::MAX
            &&& self.planes@.len() == 1 && self.planar() ==> self.second_chroma_offset()
                <= usize::MAX
        }
    }
}

/// Where `size` worth of picture sits in `format`'s buffers, or why it cannot.
///
/// Keyed on the plane count rather than the fourcc: the contiguous and per-plane
/// spellings of a layout differ only in where the planes land, and a driver is
/// free to answer either request with the other.
pub open spec fn layout(format: &Format, size: Size) -> Result<Planes, Error> {
    let width = format.size.width as int;
    if !size.valid() {
        Err(Error::InvalidSize { size })
    } else if size.width > format.size.width || size.height > format.size.height {
        Err(Error::Negotiated { coded: format.size, size })
    } else if !format.interleaved() && !format.planar() {
        Err(Error::UnsupportedRaw { pixelformat: format.pixelformat })
    } else if format.planes@.len() == 0 {
        Err(Error::NoPlanes)
    } else if format.planar() && format.planes@.len() == 2 {
        Err(Error::MissingPlanes { pixelformat: format.pixelformat, planes: 2 })
    } else {
        let y = Component { plane: 0, offset: 0, stride: format.luma_stride() as usize };
        let (u, v) = if format.interleaved() && format.planes@.len() > 1 {
            (Component { plane: 1, offset: 0, stride: format.stride_of(1, width) as usize }, None)
        } else if format.interleaved() {
            (
                Component {
                    plane: 0,
                    offset: format.chroma_offset() as usize,
                    stride: format.luma_stride() as usize,
                },
                None,
            )
        } else if format.planes@.len() > 1 {
            (
                Component { plane: 1, offset: 0, stride: format.stride_of(1, width / 2) as usize },
                Some(
                    Component {
                        plane: 2,
                        offset: 0,
                        stride: format.stride_of(2, width / 2) as usize,
                    },
                ),
            )
        } else {
            (
                Component {
                    plane: 0,
                    offset: format.chroma_offset() as usize,
                    stride: (format.luma_stride() / 2) as usize,
                },
                Some(
                    Component {
                        plane: 0,
                        offset: format.second_chroma_offset() as usize,
                        stride: (format.luma_stride() / 2) as usize,
                    },
                ),
            )
        };
        Ok(Planes { y, u, v, size })
    }
}

/// Whether `planes` is where `size` worth of picture sits in `format`'s buffers,
/// at offsets this machine can count to.
#[verifier::opaque]
pub open spec fn laid_out(format: Format, size: Size, planes: Planes) -> bool {
    &&& format.countable(size)
    &&& layout(&format, size) == Ok::<Planes, Error>(planes)
}

/// The first position past `rows` whole strides of a component.
pub open spec fn extent(at: Component, rows: int) -> int {
    at.offset + rows * at.stride
}

/// Whether component `b` starts past the end of `a`, or in another plane.
pub open spec fn follows(a: Component, rows: int, b: Component) -> bool {
    a.plane != b.plane || extent(a, rows) <= b.offset
}

impl Planes {
    /// No two samples of the picture share a byte: rows are no wider than their
    /// stride, and each component starts past the end of the ones before it.
    pub open spec fn apart(self) -> bool {
        let (width, height) = (self.size.width as int, self.size.height as int);
        &&& self.size.valid()
        &&& width <= self.y.stride
        &&& follows(self.y, height, self.u)
        &&& match self.v {
            None => width <= self.u.stride,
            Some(v) => {
                &&& width / 2 <= self.u.stride
                &&& width / 2 <= v.stride
                &&& follows(self.y, height, v)
                &&& follows(self.u, height / 2, v)
            },
        }
    }
}

/// Luma rows the driver reserves before chroma starts.
///
/// A driver that pads the height reports the padding only through `sizeimage`,
/// so a contiguous 4:2:0 buffer's chroma offset has to be recovered from it. The
/// floor at the visible height keeps a driver whose `sizeimage` carries an
/// unrelated tail from placing chroma inside the picture.
pub fn padded_rows(luma: Plane, height: u32) -> (rows: usize)
    requires
        2 * luma.sizeimage <= usize::MAX,
        3 * luma.stride <= usize::MAX,
    ensures
        rows == reserved_rows(luma, height),
{
    let height = height as usize;
    let stride = luma.stride as usize;
    if stride == 0 {
        // A driver that reports no stride is reporting no padding either.
        height
    } else {
        // One buffer holding 4:2:0: sizeimage = stride * rows * 3 / 2.
        let rows = luma.sizeimage as usize * 2 / (stride * 3);
        if rows < height {
            height
        } else {
            rows
        }
    }
}

fn wider(stride: u32, width: u32) -> (r: usize)
    ensures
        r == max(stride as int, width as int),
{
    if stride < width {
        width as usize
    } else {
        stride as usize
    }
}

impl Format {
    /// Whether this machine can count to every offset the layout of a `size`
    /// picture needs.
    pub fn counts(&self, size: Size) -> (counts: bool)
        ensures
            counts == self.countable(size),
    {
        let valid = size.validate().is_ok();
        let interleaved = self.pixelformat == NV12 || self.pixelformat == NV12M;
        let planar = self.pixelformat == YUV420 || self.pixelformat == YUV420M;
        if !valid || size.width > self.size.width || size.height > self.size.height || (
        !interleaved && !planar) || self.planes.len() == 0 {
            return true;
        }
        let luma = self.planes[0];
        let most = usize::MAX as u128;
        if 2 * luma.sizeimage as u128 > most || 3 * luma.stride as u128 > most {
            return false;
        }
        if self.planes.len() > 1 {
            return true;
        }
        let stride = wider(luma.stride, self.size.width) as u128;
        let rows = padded_rows(luma, self.size.height) as u128;
        proof {
            let (sizeimage, wide) = (2 * luma.sizeimage as int, 3 * luma.stride as int);
            assert(luma.stride > 0 ==> sizeimage / wide <= sizeimage) by (nonlinear_arith)
                requires
                    0 <= sizeimage,
                    luma.stride > 0 ==> wide > 0,
            ;
            assert(rows <= 0x2_0000_0000);
            assert(0 <= stride * rows <= 0x1_0000_0000 * 0x2_0000_0000) by (nonlinear_arith)
                requires
                    0 <= stride <= 0x1_0000_0000,
                    0 <= rows <= 0x2_0000_0000,
            ;
        }
        let chroma = stride * rows;
        if interleaved {
            return chroma <= most;
        }
        let (half, down) = (stride / 2, (rows + 1) / 2);
        proof {
            assert(0 <= half * down <= 0x1_0000_0000 * 0x2_0000_0000) by (nonlinear_arith)
                requires
                    0 <= half <= 0x1_0000_0000,
                    0 <= down <= 0x2_0000_0000,
            ;
        }
        chroma + half * down <= most
    }
}

impl Planes {
    /// Work out where `size` worth of picture sits in `format`'s buffers.
    pub fn new(format: &Format, size: Size) -> (r: Result<Planes, Error>)
        requires
            format.countable(size),
        ensures
            r == layout(format, size),
    {
        match size.validate() {
            Err(err) => { return Err(err); },
            Ok(()) => {},
        }
        if size.width > format.size.width || size.height > format.size.height {
            return Err(Error::Negotiated { coded: format.size, size });
        }
        let interleaved = if format.pixelformat == NV12 || format.pixelformat == NV12M {
            true
        } else if format.pixelformat == YUV420 || format.pixelformat == YUV420M {
            false
        } else {
            return Err(Error::UnsupportedRaw { pixelformat: format.pixelformat });
        };
        if format.planes.len() == 0 {
            return Err(Error::NoPlanes);
        }
        let luma = format.planes[0];
        let stride = wider(luma.stride, format.size.width);
        let y = Component { plane: 0, offset: 0, stride };

        let separate = format.planes.len() > 1;
        let rows = padded_rows(luma, format.size.height);

        let (u, v) = if interleaved && separate {
            (
                Component {
                    plane: 1,
                    offset: 0,
                    stride: wider(format.planes[1].stride, format.size.width),
                },
                None,
            )
        } else if interleaved {
            (Component { plane: 0, offset: stride * rows, stride }, None)
        } else if separate && format.planes.len() >= 3 {
            (
                Component {
                    plane: 1,
                    offset: 0,
                    stride: wider(format.planes[1].stride, format.size.width / 2),
                },
                Some(
                    Component {
                        plane: 2,
                        offset: 0,
                        stride: wider(format.planes[2].stride, format.size.width / 2),
                    },
                ),
            )
        } else if separate {
            return Err(
                Error::MissingPlanes {
                    pixelformat: format.pixelformat,
                    planes: format.planes.len(),
                },
            );
        } else {
            let chroma_stride = stride / 2;
            let chroma_rows = rows / 2 + rows % 2;
            proof {
                assert(chroma_rows == (rows + 1) / 2);
                assert(0 <= chroma_stride * chroma_rows) by (nonlinear_arith)
                    requires
                        0 <= chroma_stride,
                        0 <= chroma_rows,
                ;
                assert(0 <= stride * rows) by (nonlinear_arith)
                    requires
                        0 <= stride,
                        0 <= rows,
                ;
            }
            (
                Component { plane: 0, offset: stride * rows, stride: chroma_stride },
                Some(
                    Component {
                        plane: 0,
                        offset: stride * rows + chroma_stride * chroma_rows,
                        stride: chroma_stride,
                    },
                ),
            )
        };
        Ok(Planes { y, u, v, size })
    }
}

} // verus!

//! Where a driver looks for each component of a picture, told from the numbers it
//! reported alone.

use vstd::arithmetic::div_mod::lemma_fundamental_div_mod_converse;
use vstd::prelude::*;

use super::format::Format;
use super::fourcc::{NV12, NV12M, YUV420, YUV420M};
use super::planes::{layout, Planes};
use crate::error::Error;
use crate::frame::Size;

verus! {

/// Whether a picture is whole 2x2 blocks, at least one of them, and no larger than what
/// the driver codes.
pub open spec fn fits(format: &Format, size: Size) -> bool {
    &&& 0 < size.width <= format.size.width
    &&& 0 < size.height <= format.size.height
    &&& size.width % 2 == 0
    &&& size.height % 2 == 0
}

/// The bytes from one luma row to the next: what the driver said, and never less than a
/// row of what it codes.
pub open spec fn pitch(format: &Format) -> int {
    if format.planes@[0].stride < format.size.width {
        format.size.width as int
    } else {
        format.planes@[0].stride as int
    }
}

/// Whether `rows` is how many luma rows a single buffer reserves: as many as three
/// halves of them fill `sizeimage`, counting whole rows only, and every coded row at
/// least. A driver that reports no stride reserves the coded rows.
pub open spec fn reserves(format: &Format, rows: int) -> bool {
    let (stride, sizeimage) = (
        format.planes@[0].stride as int,
        format.planes@[0].sizeimage as int,
    );
    &&& format.size.height <= rows
    &&& stride == 0 ==> rows == format.size.height
    &&& stride > 0 ==> {
        &&& format.size.height < rows ==> 3 * (stride * rows) <= 2 * sizeimage
        &&& 2 * sizeimage < 3 * (stride * (rows + 1))
    }
}

/// Whether offsets past `rows` reserved rows are ones this machine can count to.
pub open spec fn reachable(format: &Format, rows: int) -> bool {
    &&& 2 * format.planes@[0].sizeimage <= usize::MAX
    &&& 3 * format.planes@[0].stride <= usize::MAX
    &&& pitch(format) * rows + (pitch(format) / 2) * ((rows + 1) / 2) <= usize::MAX
}

proof fn lemma_reserved(format: &Format, rows: int)
    requires
        format.planes@.len() > 0,
        reserves(format, rows),
    ensures
        format.rows() == rows,
        format.luma_stride() == pitch(format),
        0 <= pitch(format) * rows,
        0 <= (pitch(format) / 2) * ((rows + 1) / 2),
{
    let (stride, sizeimage) = (
        format.planes@[0].stride as int,
        format.planes@[0].sizeimage as int,
    );
    let (wide, height) = (pitch(format), format.size.height as int);
    assert(0 <= wide * rows && 0 <= (wide / 2) * ((rows + 1) / 2)) by (nonlinear_arith)
        requires
            0 <= wide,
            0 <= rows,
    ;
    if stride > 0 {
        let (n, d) = (2 * sizeimage, 3 * stride);
        assert(3 * (stride * rows) == rows * d && 3 * (stride * (rows + 1)) == rows * d + d)
            by (nonlinear_arith)
            requires
                d == 3 * stride,
        ;
        if rows * d <= n {
            lemma_fundamental_div_mod_converse(n, d, rows, n - rows * d);
        } else {
            assert(n / d <= rows) by (nonlinear_arith)
                requires
                    n < rows * d,
                    d > 0,
            ;
        }
    }
}

/// In a single buffer the driver looks for chroma right past the luma rows it reserves,
/// however many rows of padding that is. Interleaved chroma has luma's stride; planar
/// chroma has half of it, and the second component follows half as many rows later,
/// rounded up.
pub proof fn law_chroma_follows_the_reserved_rows(format: &Format, size: Size, rows: int)
    requires
        fits(format, size),
        format.planes@.len() == 1,
        reserves(format, rows),
        reachable(format, rows),
    ensures
        format.countable(size),
        format.pixelformat == NV12 || format.pixelformat == NV12M ==> {
            &&& layout(format, size) matches Ok(at)
            &&& at.size == size
            &&& at.y.plane == 0 && at.y.offset == 0 && at.y.stride == pitch(format)
            &&& at.u.plane == 0 && at.u.offset == pitch(format) * rows && at.u.stride == pitch(
                format,
            )
            &&& at.v is None
        },
        format.pixelformat == YUV420 || format.pixelformat == YUV420M ==> {
            &&& layout(format, size) matches Ok(at)
            &&& at.size == size
            &&& at.y.plane == 0 && at.y.offset == 0 && at.y.stride == pitch(format)
            &&& at.u.plane == 0 && at.u.offset == pitch(format) * rows
            &&& at.u.stride == pitch(format) / 2
            &&& at.v matches Some(v)
            &&& v.plane == 0 && v.stride == pitch(format) / 2
            &&& v.offset == pitch(format) * rows + (pitch(format) / 2) * ((rows + 1) / 2)
        },
{
    lemma_reserved(format, rows);
}

/// A buffer sized for exactly `rows` rows of 4:2:0 at the driver's stride has chroma at
/// exactly `stride * rows`, for every row count from the coded height up.
pub proof fn law_chroma_is_found_where_sizeimage_says(format: &Format, size: Size, rows: int)
    requires
        fits(format, size),
        format.pixelformat == NV12 || format.pixelformat == NV12M || format.pixelformat == YUV420
            || format.pixelformat == YUV420M,
        format.planes@.len() == 1,
        format.planes@[0].stride > 0,
        format.size.width <= format.planes@[0].stride,
        format.size.height <= rows,
        2 * format.planes@[0].sizeimage == 3 * (format.planes@[0].stride * rows),
        reachable(format, rows),
    ensures
        layout(format, size) matches Ok(at) && at.u.plane == 0 && at.u.offset
            == format.planes@[0].stride * rows,
{
    let stride = format.planes@[0].stride as int;
    assert(stride * (rows + 1) == stride * rows + stride) by (nonlinear_arith);
    law_chroma_follows_the_reserved_rows(format, size, rows);
}

/// The wider of a reported stride and a row of `width` bytes.
pub open spec fn at_least(stride: u32, width: int) -> int {
    if stride < width {
        width
    } else {
        stride as int
    }
}

/// Planes with buffers of their own start at the front of them, at the strides the
/// driver gave each, and never less than a row of what it codes.
pub proof fn law_separate_planes_start_at_the_front(format: &Format, size: Size)
    requires
        fits(format, size),
        format.planes@.len() > 1,
    ensures
        format.pixelformat == NV12 || format.pixelformat == NV12M ==> {
            &&& layout(format, size) matches Ok(at)
            &&& at.size == size
            &&& at.y.plane == 0 && at.y.offset == 0 && at.y.stride == pitch(format)
            &&& at.u.plane == 1 && at.u.offset == 0
            &&& at.u.stride == at_least(format.planes@[1].stride, format.size.width as int)
            &&& at.v is None
        },
        (format.pixelformat == YUV420 || format.pixelformat == YUV420M) && format.planes@.len() > 2
            ==> {
            &&& layout(format, size) matches Ok(at)
            &&& at.size == size
            &&& at.y.plane == 0 && at.y.offset == 0 && at.y.stride == pitch(format)
            &&& at.u.plane == 1 && at.u.offset == 0
            &&& at.u.stride == at_least(format.planes@[1].stride, format.size.width as int / 2)
            &&& at.v matches Some(v)
            &&& v.plane == 2 && v.offset == 0
            &&& v.stride == at_least(format.planes@[2].stride, format.size.width as int / 2)
        },
{
}

/// A picture is laid out exactly when the driver codes all of it, in a 4:2:0 format that
/// can be laid out here, with a plane for each component or one for all of them. What
/// fails says why: the size itself, what the driver codes of it, the format, and the
/// planes, in that order.
pub proof fn law_what_cannot_be_laid_out(format: &Format, size: Size)
    ensures
        ({
            let r = layout(format, size);
            let planes = format.planes@.len();
            let even = size.width > 0 && size.height > 0 && size.width % 2 == 0 && size.height % 2
                == 0;
            let coded = size.width <= format.size.width && size.height <= format.size.height;
            let semi = format.pixelformat == NV12 || format.pixelformat == NV12M;
            let planar = format.pixelformat == YUV420 || format.pixelformat == YUV420M;
            &&& !even ==> r == Err::<Planes, Error>(Error::InvalidSize { size })
            &&& even && !coded ==> r == Err::<Planes, Error>(
                Error::Negotiated { coded: format.size, size },
            )
            &&& even && coded && !semi && !planar ==> r == Err::<Planes, Error>(
                Error::UnsupportedRaw { pixelformat: format.pixelformat },
            )
            &&& even && coded && (semi || planar) && planes == 0 ==> r == Err::<Planes, Error>(
                Error::NoPlanes,
            )
            &&& even && coded && planar && planes == 2 ==> r == Err::<Planes, Error>(
                Error::MissingPlanes { pixelformat: format.pixelformat, planes: 2 },
            )
            &&& even && coded && semi && planes > 0 ==> r is Ok
            &&& even && coded && planar && planes > 0 && planes != 2 ==> r is Ok
        }),
{
}

/// What cannot be laid out needs no counting, and planes with buffers of their own need
/// none past the front of them: only the numbers the driver gave for luma have to be ones
/// this machine can work with.
pub proof fn law_what_needs_no_counting(format: &Format, size: Size)
    ensures
        !fits(format, size) ==> format.countable(size),
        format.pixelformat != NV12 && format.pixelformat != NV12M && format.pixelformat != YUV420
            && format.pixelformat != YUV420M ==> format.countable(size),
        format.planes@.len() == 0 ==> format.countable(size),
        format.planes@.len() > 1 && 2 * format.planes@[0].sizeimage <= usize::MAX && 3
            * format.planes@[0].stride <= usize::MAX ==> format.countable(size),
{
}

} // verus!

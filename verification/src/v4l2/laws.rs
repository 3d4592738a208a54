//! What holds of every layout, and of every picture copied through one.

use vstd::prelude::*;

use super::copy::{
    copy_result, copyable, fitting_rows, gathered, interleaved, lemma_fitting_rows,
    lemma_gathered_len, lemma_put_rows_len, lemma_row_start_grows, packed_row, paired_row,
    put_rows, row_fits, row_start, scattered,
};
use super::format::Format;
use super::picture::put_packed;
use super::planes::{extent, layout, Component, Planes};
use crate::error::Error;
use crate::frame::Size;

verus! {

/// A layout never puts two samples of a picture in one byte, whatever the driver
/// answered: chroma starts past the luma rows the driver reserves, and those are
/// at least the visible ones.
pub proof fn law_layout_keeps_components_apart(format: &Format, size: Size)
    requires
        format.countable(size),
        layout(format, size) is Ok,
    ensures
        layout(format, size)->Ok_0.apart(),
        layout(format, size)->Ok_0.size == size,
{
    let at = layout(format, size)->Ok_0;
    let (stride, rows, height) = (format.luma_stride(), format.rows(), size.height as int);
    assert(0 <= stride && height <= rows);
    assert(height * stride <= stride * rows) by (nonlinear_arith)
        requires
            0 <= stride,
            height <= rows,
    ;
    assert((height / 2) * (stride / 2) <= (stride / 2) * ((rows + 1) / 2)) by (nonlinear_arith)
        requires
            0 <= stride,
            0 <= height <= rows,
    ;
    assert(0 <= (height / 2) * (stride / 2)) by (nonlinear_arith)
        requires
            0 <= stride,
            0 <= height,
    ;
    assert(0 <= height * stride) by (nonlinear_arith)
        requires
            0 <= stride,
            0 <= height,
    ;
}

/// A row of non-overlapping rows reads back as it was written.
proof fn lemma_row_lands(
    dst: Seq<u8>,
    at: Component,
    row: spec_fn(int) -> Seq<u8>,
    bytes: int,
    n: nat,
    r: int,
    c: int,
)
    requires
        bytes <= at.stride,
        forall|k: int| 0 <= k < n ==> (#[trigger] row(k)).len() == bytes,
        forall|k: int| 0 <= k < n ==> row_fits(dst.len() as int, at, bytes, k),
        0 <= r < n,
        0 <= c < bytes,
    ensures
        0 <= row_start(at, r) + c < dst.len(),
        put_rows(dst, at, row, n)[row_start(at, r) + c] == row(r)[c],
    decreases n,
{
    lemma_put_rows_len(dst, at, row, n);
    lemma_put_rows_len(dst, at, row, (n - 1) as nat);
    assert(row_fits(dst.len() as int, at, bytes, r));
    assert(row(n - 1).len() == bytes);
    lemma_row_start_grows(at, 0, r);
    if r < n - 1 {
        lemma_row_lands(dst, at, row, bytes, (n - 1) as nat, r, c);
        lemma_row_start_grows(at, r + 1, n - 1);
        assert(row_start(at, r + 1) == row_start(at, r) + at.stride) by {
            assert((r + 1) * at.stride == r * at.stride + at.stride) by (nonlinear_arith);
        }
    }
}

/// A byte outside every row is left alone.
proof fn lemma_rest_stays(
    dst: Seq<u8>,
    at: Component,
    row: spec_fn(int) -> Seq<u8>,
    bytes: int,
    n: nat,
    i: int,
)
    requires
        forall|k: int| 0 <= k < n ==> (#[trigger] row(k)).len() == bytes,
        forall|k: int|
            0 <= k < n ==> !(#[trigger] row_start(at, k) <= i < row_start(at, k) + bytes),
        0 <= i < dst.len(),
    ensures
        put_rows(dst, at, row, n)[i] == dst[i],
    decreases n,
{
    if n > 0 {
        lemma_put_rows_len(dst, at, row, (n - 1) as nat);
        lemma_rest_stays(dst, at, row, bytes, (n - 1) as nat, i);
        assert(row(n - 1).len() == bytes);
        assert(!(row_start(at, n - 1) <= i < row_start(at, n - 1) + bytes));
    }
}

/// Gathering reads exactly the samples a plane holds at the component's places.
proof fn lemma_gathers(
    src: Seq<u8>,
    at: Component,
    step: int,
    phase: int,
    width: nat,
    n: nat,
    want: Seq<u8>,
)
    requires
        n * width <= want.len(),
        forall|r: int, k: int|
            0 <= r < n && 0 <= k < width ==> #[trigger] src[row_start(at, r) + k * step + phase]
                == want[r * width + k],
    ensures
        gathered(src, at, step, phase, width, n) == want.subrange(0, (n * width) as int),
    decreases n,
{
    if n > 0 {
        let before = (n - 1) as nat;
        assert(before * width + width == n * width) by (nonlinear_arith)
            requires
                before + 1 == n,
        ;
        assert(0 <= before * width) by (nonlinear_arith);
        lemma_gathers(src, at, step, phase, width, before, want);
        assert(gathered(src, at, step, phase, width, n) =~= want.subrange(
            0,
            (n * width) as int,
        ));
    } else {
        assert(n * width == 0) by (nonlinear_arith)
            requires
                n == 0,
        ;
        assert(gathered(src, at, step, phase, width, n) =~= want.subrange(0, 0));
    }
}

/// Whether byte `i` of plane `plane` belongs to one of a component's rows.
pub open spec fn in_component(
    at: Component,
    bytes: int,
    rows: int,
    plane: int,
    i: int,
) -> bool {
    &&& at.plane == plane
    &&& exists|row: int|
        0 <= row < rows && #[trigger] row_start(at, row) <= i < row_start(at, row) + bytes
}

impl Planes {
    /// Whether byte `i` of plane `plane` holds a sample of the picture.
    pub open spec fn visible(self, plane: int, i: int) -> bool {
        ||| in_component(self.y, self.width() as int, self.height() as int, plane, i)
        ||| in_component(self.u, self.chroma_bytes(), self.chroma_rows() as int, plane, i)
        ||| self.v is Some && in_component(
            self.v->0,
            self.chroma_width() as int,
            self.chroma_rows() as int,
            plane,
            i,
        )
    }
}

proof fn lemma_packed_sizes(src: Seq<u8>, width: int, rows: nat, r: int)
    requires
        0 <= width,
        rows * width <= src.len(),
        0 <= r < rows,
    ensures
        packed_row(src, width, r).len() == width,
        0 <= r * width,
        r * width + width <= src.len(),
{
    assert(0 <= r * width && r * width + width <= rows * width) by (nonlinear_arith)
        requires
            0 <= r < rows,
            0 <= width,
    ;
}

/// Where a successful packed copy puts its samples.
proof fn lemma_packed_lands(
    dst: Seq<u8>,
    at: Component,
    src: Seq<u8>,
    width: int,
    rows: nat,
    r: int,
    k: int,
)
    requires
        0 <= width <= at.stride,
        rows * width <= src.len(),
        copy_result(dst.len() as int, at, width, rows) is Ok,
        0 <= r < rows,
        0 <= k < width,
    ensures
        scattered(dst, at, src, width, rows)[row_start(at, r) + k] == src[r * width + k],
        row_start(at, r) + k < dst.len(),
{
    let row = |row: int| packed_row(src, width, row);
    lemma_fitting_rows(dst.len() as int, at, width, rows);
    assert forall|q: int| 0 <= q < rows implies (#[trigger] row(q)).len() == width by {
        lemma_packed_sizes(src, width, rows, q);
    }
    lemma_packed_sizes(src, width, rows, r);
    lemma_row_lands(dst, at, row, width, rows, r, k);
}

/// What a packed copy leaves alone.
proof fn lemma_packed_stays(
    dst: Seq<u8>,
    at: Component,
    src: Seq<u8>,
    width: int,
    rows: nat,
    i: int,
)
    requires
        0 <= width,
        rows * width <= src.len(),
        0 <= i < dst.len(),
        !in_component(at, width, rows as int, at.plane as int, i),
    ensures
        scattered(dst, at, src, width, rows)[i] == dst[i],
{
    let row = |row: int| packed_row(src, width, row);
    assert forall|q: int| 0 <= q < rows implies (#[trigger] row(q)).len() == width by {
        lemma_packed_sizes(src, width, rows, q);
    }
    lemma_rest_stays(dst, at, row, width, rows, i);
}

/// Where a successful interleaving copy puts its samples.
proof fn lemma_paired_lands(
    dst: Seq<u8>,
    at: Component,
    u: Seq<u8>,
    v: Seq<u8>,
    width: int,
    rows: nat,
    r: int,
    k: int,
)
    requires
        0 <= width,
        2 * width <= at.stride,
        copy_result(dst.len() as int, at, 2 * width, rows) is Ok,
        0 <= r < rows,
        0 <= k < width,
    ensures
        interleaved(dst, at, u, v, width, rows)[row_start(at, r) + 2 * k] == u[r * width + k],
        interleaved(dst, at, u, v, width, rows)[row_start(at, r) + 2 * k + 1] == v[r * width + k],
        row_start(at, r) + 2 * k + 1 < dst.len(),
{
    let row = |row: int| paired_row(u, v, width, row);
    lemma_fitting_rows(dst.len() as int, at, 2 * width, rows);
    lemma_row_lands(dst, at, row, 2 * width, rows, r, 2 * k);
    lemma_row_lands(dst, at, row, 2 * width, rows, r, 2 * k + 1);
    assert((2 * k + 1) / 2 == k && (2 * k) / 2 == k);
}

/// What an interleaving copy leaves alone.
proof fn lemma_paired_stays(
    dst: Seq<u8>,
    at: Component,
    u: Seq<u8>,
    v: Seq<u8>,
    width: int,
    rows: nat,
    i: int,
)
    requires
        0 <= width,
        0 <= i < dst.len(),
        !in_component(at, 2 * width, rows as int, at.plane as int, i),
    ensures
        interleaved(dst, at, u, v, width, rows)[i] == dst[i],
{
    let row = |row: int| paired_row(u, v, width, row);
    lemma_rest_stays(dst, at, row, 2 * width, rows, i);
}

/// A packed copy into one component keeps every plane's length, and every byte
/// outside the component.
proof fn lemma_put_packed_stays(
    planes: Seq<Seq<u8>>,
    at: Component,
    src: Seq<u8>,
    width: int,
    rows: nat,
    plane: int,
    i: int,
)
    requires
        0 <= width,
        rows * width <= src.len(),
        at.plane < planes.len(),
        0 <= plane < planes.len(),
        0 <= i < planes[plane].len(),
        !in_component(at, width, rows as int, plane, i),
    ensures
        put_packed(planes, at, src, width, rows).0.len() == planes.len(),
        put_packed(planes, at, src, width, rows).0[plane].len() == planes[plane].len(),
        put_packed(planes, at, src, width, rows).0[plane][i] == planes[plane][i],
{
    let dst = planes[at.plane as int];
    let fit = fitting_rows(dst.len() as int, at, width, rows);
    lemma_fitting_rows(dst.len() as int, at, width, rows);
    lemma_put_rows_len(dst, at, |row: int| packed_row(src, width, row), fit);
    assert(fit * width <= rows * width) by (nonlinear_arith)
        requires
            fit <= rows,
            0 <= width,
    ;
    if plane == at.plane {
        assert(!in_component(at, width, fit as int, plane, i));
        lemma_packed_stays(dst, at, src, width, fit, i);
    }
}

/// Luma and chroma sample counts, row by row.
proof fn lemma_sample_counts(at: Planes)
    ensures
        at.height() * at.width() == at.size.area(),
        at.chroma_rows() * at.chroma_width() == at.size.chroma_area(),
{
    assert(at.height() * at.width() == at.width() * at.height()) by (nonlinear_arith);
    let (w, h) = (at.chroma_width(), at.chroma_rows());
    assert(h * w == w * h) by (nonlinear_arith);
}

/// A byte before a component's offset is in none of its rows.
proof fn lemma_before(at: Component, bytes: int, rows: int, i: int)
    requires
        i < at.offset,
    ensures
        !in_component(at, bytes, rows, at.plane as int, i),
{
    assert forall|row: int| 0 <= row < rows implies !(#[trigger] row_start(at, row) <= i
        < row_start(at, row) + bytes) by {
        lemma_row_start_grows(at, 0, row);
    }
}

/// A component's samples end before its extent does.
proof fn lemma_within(at: Component, rows: int, r: int, c: int)
    requires
        0 <= r < rows,
        0 <= c < at.stride,
    ensures
        row_start(at, r) + c < extent(at, rows),
{
    lemma_row_start_grows(at, r + 1, rows);
    assert((r + 1) * at.stride == r * at.stride + at.stride) by (nonlinear_arith);
}

/// The alignment padding of a buffer, and everything past the picture, is left
/// exactly as it was found, on every plane.
pub proof fn law_padding_is_left_alone(
    at: Planes,
    planes: Seq<Seq<u8>>,
    y: Seq<u8>,
    u: Seq<u8>,
    v: Seq<u8>,
    plane: int,
    i: int,
)
    requires
        at.addresses(planes),
        at.size.area() <= y.len(),
        at.size.chroma_area() <= u.len(),
        at.size.chroma_area() <= v.len(),
        0 <= plane < planes.len(),
        0 <= i < planes[plane].len(),
        !at.visible(plane, i),
    ensures
        at.written(planes, y, u, v).0.len() == planes.len(),
        at.written(planes, y, u, v).0[plane].len() == planes[plane].len(),
        at.written(planes, y, u, v).0[plane][i] == planes[plane][i],
{
    lemma_sample_counts(at);
    let luma = put_packed(planes, at.y, y, at.width() as int, at.height());
    lemma_put_packed_stays(planes, at.y, y, at.width() as int, at.height(), plane, i);
    let (w, h) = (at.chroma_width(), at.chroma_rows());
    if luma.1 is Ok {
        match at.v {
            Some(c) => {
                let first = put_packed(luma.0, at.u, u, w as int, h);
                lemma_put_packed_stays(luma.0, at.u, u, w as int, h, plane, i);
                if first.1 is Ok {
                    lemma_put_packed_stays(first.0, c, v, w as int, h, plane, i);
                }
            },
            None => {
                let dst = luma.0[at.u.plane as int];
                let fit = fitting_rows(dst.len() as int, at.u, 2 * w as int, h);
                lemma_fitting_rows(dst.len() as int, at.u, 2 * w as int, h);
                lemma_put_rows_len(dst, at.u, |row: int| paired_row(u, v, w as int, row), fit);
                if plane == at.u.plane {
                    assert(!in_component(at.u, 2 * w as int, fit as int, plane, i));
                    lemma_paired_stays(dst, at.u, u, v, w as int, fit, i);
                }
            },
        }
    }
}

/// Writing a picture changes no plane's length.
proof fn lemma_written_lens(
    at: Planes,
    planes: Seq<Seq<u8>>,
    y: Seq<u8>,
    u: Seq<u8>,
    v: Seq<u8>,
    plane: int,
)
    requires
        0 <= plane < planes.len(),
        at.y.plane < planes.len(),
        at.u.plane < planes.len(),
        at.v matches Some(c) ==> c.plane < planes.len(),
    ensures
        at.written(planes, y, u, v).0.len() == planes.len(),
        at.written(planes, y, u, v).0[plane].len() == planes[plane].len(),
{
    let (w, h) = (at.width() as int, at.height());
    let (cw, ch) = (at.chroma_width() as int, at.chroma_rows());
    let dst_y = planes[at.y.plane as int];
    let fit = fitting_rows(dst_y.len() as int, at.y, w, h);
    lemma_put_rows_len(dst_y, at.y, |row: int| packed_row(y, w, row), fit);
    let luma = put_packed(planes, at.y, y, w, h).0;
    let dst_u = luma[at.u.plane as int];
    match at.v {
        Some(c) => {
            let fit = fitting_rows(dst_u.len() as int, at.u, cw, ch);
            lemma_put_rows_len(dst_u, at.u, |row: int| packed_row(u, cw, row), fit);
            let first = put_packed(luma, at.u, u, cw, ch).0;
            let dst_v = first[c.plane as int];
            let fit = fitting_rows(dst_v.len() as int, c, cw, ch);
            lemma_put_rows_len(dst_v, c, |row: int| packed_row(v, cw, row), fit);
        },
        None => {
            let fit = fitting_rows(dst_u.len() as int, at.u, 2 * cw, ch);
            lemma_put_rows_len(dst_u, at.u, |row: int| paired_row(u, v, cw, row), fit);
        },
    }
}

/// The samples of a picture.
pub struct Samples {
    pub y: Seq<u8>,
    pub u: Seq<u8>,
    pub v: Seq<u8>,
}

/// A buffer's planes after one picture after another is written to them.
pub open spec fn rewritten(at: Planes, planes: Seq<Seq<u8>>, pictures: Seq<Samples>) -> Seq<Seq<u8>>
    decreases pictures.len(),
{
    if pictures.len() == 0 {
        planes
    } else {
        let Samples { y, u, v } = pictures.last();
        at.written(rewritten(at, planes, pictures.drop_last()), y, u, v).0
    }
}

/// A buffer cleared once when it is mapped stays clear outside the picture however
/// often it is used: its padding keeps the bytes it was mapped with, and those are
/// zeroes once the plane is cleared.
pub proof fn law_padding_stays_as_it_was_mapped(
    at: Planes,
    planes: Seq<Seq<u8>>,
    pictures: Seq<Samples>,
    plane: int,
    i: int,
)
    requires
        at.addresses(planes),
        forall|k: int|
            0 <= k < pictures.len() ==> {
                &&& at.size.area() <= (#[trigger] pictures[k]).y.len()
                &&& at.size.chroma_area() <= pictures[k].u.len()
                &&& at.size.chroma_area() <= pictures[k].v.len()
            },
        0 <= plane < planes.len(),
        0 <= i < planes[plane].len(),
        !at.visible(plane, i),
    ensures
        rewritten(at, planes, pictures)[plane][i] == planes[plane][i],
        planes[plane] == Seq::new(planes[plane].len(), |j: int| 0u8) ==> rewritten(
            at,
            planes,
            pictures,
        )[plane][i] == 0,
{
    lemma_rewritten(at, planes, pictures, plane, i);
}

proof fn lemma_rewritten(
    at: Planes,
    planes: Seq<Seq<u8>>,
    pictures: Seq<Samples>,
    plane: int,
    i: int,
)
    requires
        at.addresses(planes),
        forall|k: int|
            0 <= k < pictures.len() ==> {
                &&& at.size.area() <= (#[trigger] pictures[k]).y.len()
                &&& at.size.chroma_area() <= pictures[k].u.len()
                &&& at.size.chroma_area() <= pictures[k].v.len()
            },
        0 <= plane < planes.len(),
        0 <= i < planes[plane].len(),
        !at.visible(plane, i),
    ensures
        ({
            let now = rewritten(at, planes, pictures);
            &&& now.len() == planes.len()
            &&& forall|p: int| 0 <= p < planes.len() ==> (#[trigger] now[p]).len() == planes[p].len()
            &&& at.addresses(now)
            &&& now[plane][i] == planes[plane][i]
        }),
    decreases pictures.len(),
{
    if pictures.len() > 0 {
        let earlier = pictures.drop_last();
        let last = pictures.last();
        assert forall|k: int| 0 <= k < earlier.len() implies {
            &&& at.size.area() <= (#[trigger] earlier[k]).y.len()
            &&& at.size.chroma_area() <= earlier[k].u.len()
            &&& at.size.chroma_area() <= earlier[k].v.len()
        } by {
            assert(earlier[k] == pictures[k]);
        }
        lemma_rewritten(at, planes, earlier, plane, i);
        let before = rewritten(at, planes, earlier);
        law_padding_is_left_alone(at, before, last.y, last.u, last.v, plane, i);
        let now = rewritten(at, planes, pictures);
        assert forall|p: int| 0 <= p < planes.len() implies (#[trigger] now[p]).len()
            == planes[p].len() by {
            lemma_written_lens(at, before, last.y, last.u, last.v, p);
        }
        assert(now[at.y.plane as int].len() == planes[at.y.plane as int].len());
        assert(now[at.u.plane as int].len() == planes[at.u.plane as int].len());
        if let Some(c) = at.v {
            assert(now[c.plane as int].len() == planes[c.plane as int].len());
        }
    }
}

proof fn lemma_all_rows_fit(len: int, at: Component, width: int, rows: nat)
    requires
        width <= at.stride,
        extent(at, rows as int) <= len,
    ensures
        fitting_rows(len, at, width, rows) == rows,
{
    if rows > 0 {
        assert((rows - 1) * at.stride + at.stride == rows * at.stride) by (nonlinear_arith);
        assert(row_fits(len, at, width, rows - 1));
    }
}

/// A buffer with room for every row of every component takes the whole picture.
pub proof fn law_a_large_enough_buffer_takes_the_picture(
    at: Planes,
    planes: Seq<Seq<u8>>,
    y: Seq<u8>,
    u: Seq<u8>,
    v: Seq<u8>,
)
    requires
        at.apart(),
        at.y.plane < planes.len(),
        at.u.plane < planes.len(),
        extent(at.y, at.height() as int) <= planes[at.y.plane as int].len(),
        extent(at.u, at.chroma_rows() as int) <= planes[at.u.plane as int].len(),
        at.v matches Some(c) ==> c.plane < planes.len() && extent(c, at.chroma_rows() as int)
            <= planes[c.plane as int].len(),
    ensures
        at.addresses(planes),
        at.written(planes, y, u, v).1 is Ok,
{
    let (w, h) = (at.width() as int, at.height());
    let (cw, ch) = (at.chroma_width() as int, at.chroma_rows());
    lemma_all_rows_fit(planes[at.y.plane as int].len() as int, at.y, w, h);
    lemma_all_rows_fit(planes[at.u.plane as int].len() as int, at.u, at.chroma_bytes(), ch);
    let luma = put_packed(planes, at.y, y, w, h).0;
    lemma_put_rows_len(planes[at.y.plane as int], at.y, |row: int| packed_row(y, w, row), h);
    if let Some(c) = at.v {
        lemma_all_rows_fit(planes[c.plane as int].len() as int, c, cw, ch);
        lemma_put_rows_len(
            luma[at.u.plane as int],
            at.u,
            |row: int| packed_row(u, cw, row),
            ch,
        );
    }
}

/// A picture written to a buffer and read back is the same picture, for every
/// layout that keeps its components apart and every buffer large enough.
pub proof fn law_a_written_picture_reads_back(
    at: Planes,
    planes: Seq<Seq<u8>>,
    y: Seq<u8>,
    u: Seq<u8>,
    v: Seq<u8>,
)
    requires
        at.apart(),
        at.addresses(planes),
        y.len() == at.size.area(),
        u.len() == at.size.chroma_area(),
        v.len() == at.size.chroma_area(),
        at.written(planes, y, u, v).1 is Ok,
    ensures
        at.held(at.written(planes, y, u, v).0) == Ok::<Seq<u8>, crate::error::Error>(y + u + v),
{
    lemma_sample_counts(at);
    let (w, h) = (at.width() as int, at.height());
    let (cw, ch) = (at.chroma_width() as int, at.chroma_rows());
    let luma = put_packed(planes, at.y, y, w, h).0;
    let done = at.written(planes, y, u, v).0;
    let dst_y = planes[at.y.plane as int];
    let dst_u = luma[at.u.plane as int];
    lemma_put_rows_len(dst_y, at.y, |row: int| packed_row(y, w, row), h);
    match at.v {
        Some(c) => {
            let first = put_packed(luma, at.u, u, cw, ch).0;
            let dst_v = first[c.plane as int];
            lemma_put_rows_len(dst_u, at.u, |row: int| packed_row(u, cw, row), ch);
            lemma_put_rows_len(dst_v, c, |row: int| packed_row(v, cw, row), ch);
            assert forall|r: int, k: int| 0 <= r < h && 0 <= k < w implies #[trigger] done[
            at.y.plane as int][row_start(at.y, r) + k * 1 + 0] == y[r * w + k] by {
                let i = row_start(at.y, r) + k;
                lemma_packed_lands(dst_y, at.y, y, w, h, r, k);
                lemma_within(at.y, h as int, r, k);
                lemma_row_start_grows(at.y, 0, r);
                if at.u.plane == at.y.plane {
                    lemma_before(at.u, cw, ch as int, i);
                    lemma_packed_stays(dst_u, at.u, u, cw, ch, i);
                }
                if c.plane == at.y.plane {
                    lemma_before(c, cw, ch as int, i);
                    lemma_packed_stays(dst_v, c, v, cw, ch, i);
                }
            }
            assert forall|r: int, k: int| 0 <= r < ch && 0 <= k < cw implies #[trigger] done[
            at.u.plane as int][row_start(at.u, r) + k * 1 + 0] == u[r * cw + k] by {
                let i = row_start(at.u, r) + k;
                lemma_packed_lands(dst_u, at.u, u, cw, ch, r, k);
                lemma_within(at.u, ch as int, r, k);
                lemma_row_start_grows(at.u, 0, r);
                if c.plane == at.u.plane {
                    lemma_before(c, cw, ch as int, i);
                    lemma_packed_stays(dst_v, c, v, cw, ch, i);
                }
            }
            assert forall|r: int, k: int| 0 <= r < ch && 0 <= k < cw implies #[trigger] done[
            c.plane as int][row_start(c, r) + k * 1 + 0] == v[r * cw + k] by {
                lemma_packed_lands(dst_v, c, v, cw, ch, r, k);
            }
            lemma_gathers(done[at.y.plane as int], at.y, 1, 0, w as nat, h, y);
            lemma_gathers(done[at.u.plane as int], at.u, 1, 0, cw as nat, ch, u);
            lemma_gathers(done[c.plane as int], c, 1, 0, cw as nat, ch, v);
        },
        None => {
            lemma_put_rows_len(dst_u, at.u, |row: int| paired_row(u, v, cw, row), ch);
            assert forall|r: int, k: int| 0 <= r < h && 0 <= k < w implies #[trigger] done[
            at.y.plane as int][row_start(at.y, r) + k * 1 + 0] == y[r * w + k] by {
                let i = row_start(at.y, r) + k;
                lemma_packed_lands(dst_y, at.y, y, w, h, r, k);
                lemma_within(at.y, h as int, r, k);
                lemma_row_start_grows(at.y, 0, r);
                if at.u.plane == at.y.plane {
                    lemma_before(at.u, 2 * cw, ch as int, i);
                    lemma_paired_stays(dst_u, at.u, u, v, cw, ch, i);
                }
            }
            assert forall|r: int, k: int| 0 <= r < ch && 0 <= k < cw implies #[trigger] done[
            at.u.plane as int][row_start(at.u, r) + k * 2 + 0] == u[r * cw + k] by {
                lemma_paired_lands(dst_u, at.u, u, v, cw, ch, r, k);
            }
            assert forall|r: int, k: int| 0 <= r < ch && 0 <= k < cw implies #[trigger] done[
            at.u.plane as int][row_start(at.u, r) + k * 2 + 1] == v[r * cw + k] by {
                lemma_paired_lands(dst_u, at.u, u, v, cw, ch, r, k);
            }
            lemma_gathers(done[at.y.plane as int], at.y, 1, 0, w as nat, h, y);
            lemma_gathers(done[at.u.plane as int], at.u, 2, 0, cw as nat, ch, u);
            lemma_gathers(done[at.u.plane as int], at.u, 2, 1, cw as nat, ch, v);
        },
    }
    assert(y.subrange(0, y.len() as int) =~= y);
    assert(u.subrange(0, u.len() as int) =~= u);
    assert(v.subrange(0, v.len() as int) =~= v);
}

/// Every sample of a picture that is taken ends up in the byte the layout gives it: luma
/// row by row at luma's stride, and chroma at chroma's, U and V each in rows of their
/// own or alternating, U first, where they share a component.
pub proof fn law_samples_land_in_their_places(
    at: Planes,
    planes: Seq<Seq<u8>>,
    y: Seq<u8>,
    u: Seq<u8>,
    v: Seq<u8>,
    row: int,
    column: int,
)
    requires
        at.apart(),
        at.addresses(planes),
        at.size.width * at.size.height <= y.len(),
        (at.size.width / 2) * (at.size.height / 2) <= u.len(),
        (at.size.width / 2) * (at.size.height / 2) <= v.len(),
        at.written(planes, y, u, v).1 is Ok,
        0 <= row < at.size.height,
        0 <= column < at.size.width,
    ensures
        ({
            let done = at.written(planes, y, u, v).0;
            let (width, half) = (at.size.width as int, at.size.width as int / 2);
            let chroma = done[at.u.plane as int];
            &&& done[at.y.plane as int][at.y.offset + row * at.y.stride + column] == y[row * width
                + column]
            &&& 2 * row < at.size.height && 2 * column < at.size.width ==> match at.v {
                Some(c) => {
                    &&& chroma[at.u.offset + row * at.u.stride + column] == u[row * half + column]
                    &&& done[c.plane as int][c.offset + row * c.stride + column] == v[row * half
                        + column]
                },
                None => {
                    &&& chroma[at.u.offset + row * at.u.stride + 2 * column] == u[row * half
                        + column]
                    &&& chroma[at.u.offset + row * at.u.stride + 2 * column + 1] == v[row * half
                        + column]
                },
            }
        }),
{
    lemma_sample_counts(at);
    let (w, h) = (at.width() as int, at.height());
    let (cw, ch) = (at.chroma_width() as int, at.chroma_rows());
    let luma = put_packed(planes, at.y, y, w, h).0;
    let dst_y = planes[at.y.plane as int];
    let dst_u = luma[at.u.plane as int];
    lemma_put_rows_len(dst_y, at.y, |row: int| packed_row(y, w, row), h);
    let i = row_start(at.y, row) + column;
    lemma_packed_lands(dst_y, at.y, y, w, h, row, column);
    lemma_within(at.y, h as int, row, column);
    lemma_row_start_grows(at.y, 0, row);
    let inside = 2 * row < at.size.height && 2 * column < at.size.width;
    match at.v {
        Some(c) => {
            let first = put_packed(luma, at.u, u, cw, ch).0;
            let dst_v = first[c.plane as int];
            lemma_put_rows_len(dst_u, at.u, |row: int| packed_row(u, cw, row), ch);
            lemma_put_rows_len(dst_v, c, |row: int| packed_row(v, cw, row), ch);
            if at.u.plane == at.y.plane {
                lemma_before(at.u, cw, ch as int, i);
                lemma_packed_stays(dst_u, at.u, u, cw, ch, i);
            }
            if c.plane == at.y.plane {
                lemma_before(c, cw, ch as int, i);
                lemma_packed_stays(dst_v, c, v, cw, ch, i);
            }
            if inside {
                let j = row_start(at.u, row) + column;
                lemma_packed_lands(dst_u, at.u, u, cw, ch, row, column);
                lemma_within(at.u, ch as int, row, column);
                lemma_row_start_grows(at.u, 0, row);
                if c.plane == at.u.plane {
                    lemma_before(c, cw, ch as int, j);
                    lemma_packed_stays(dst_v, c, v, cw, ch, j);
                }
                lemma_packed_lands(dst_v, c, v, cw, ch, row, column);
            }
        },
        None => {
            if at.u.plane == at.y.plane {
                lemma_before(at.u, 2 * cw, ch as int, i);
                lemma_paired_stays(dst_u, at.u, u, v, cw, ch, i);
            }
            if inside {
                lemma_paired_lands(dst_u, at.u, u, v, cw, ch, row, column);
            }
        },
    }
}

/// Which byte of a plane a gathered sample is.
proof fn lemma_gathered_at(
    src: Seq<u8>,
    at: Component,
    step: int,
    phase: int,
    width: nat,
    n: nat,
    r: int,
    k: int,
)
    requires
        0 <= r < n,
        0 <= k < width,
    ensures
        0 <= r * width + k < n * width,
        gathered(src, at, step, phase, width, n).len() == n * width,
        gathered(src, at, step, phase, width, n)[r * width + k] == src[row_start(at, r) + k * step
            + phase],
    decreases n,
{
    lemma_gathered_len(src, at, step, phase, width, n);
    let before = (n - 1) as nat;
    lemma_gathered_len(src, at, step, phase, width, before);
    assert(before * width + width == n * width) by (nonlinear_arith)
        requires
            before + 1 == n,
    ;
    assert(0 <= r * width && r * width + width <= n * width) by (nonlinear_arith)
        requires
            0 <= r < n,
    ;
    if r < before {
        lemma_gathered_at(src, at, step, phase, width, before, r, k);
    }
}

/// Every sample of a picture that is read comes from the byte the layout gives it, and
/// the picture is all of them: luma, then U, then V, each packed row after row.
pub proof fn law_samples_are_read_from_their_places(
    at: Planes,
    planes: Seq<Seq<u8>>,
    row: int,
    column: int,
)
    requires
        at.held(planes) is Ok,
        0 <= row < at.size.height,
        0 <= column < at.size.width,
    ensures
        ({
            let samples = at.held(planes)->Ok_0;
            let (width, height) = (at.size.width as int, at.size.height as int);
            let (half, area) = (width / 2, width * height);
            let quarter = (width / 2) * (height / 2);
            let chroma = planes[at.u.plane as int];
            &&& samples.len() == area + 2 * quarter
            &&& samples[row * width + column] == planes[at.y.plane as int][at.y.offset + row
                * at.y.stride + column]
            &&& row < height / 2 && column < half ==> match at.v {
                Some(c) => {
                    &&& samples[area + row * half + column] == chroma[at.u.offset + row
                        * at.u.stride + column]
                    &&& samples[area + quarter + row * half + column] == planes[c.plane as int][
                    c.offset + row * c.stride + column]
                },
                None => {
                    &&& samples[area + row * half + column] == chroma[at.u.offset + row
                        * at.u.stride + 2 * column]
                    &&& samples[area + quarter + row * half + column] == chroma[at.u.offset + row
                        * at.u.stride + 2 * column + 1]
                },
            }
        }),
{
    lemma_sample_counts(at);
    let (w, h) = (at.width(), at.height());
    let (cw, ch) = (at.chroma_width(), at.chroma_rows());
    let (y, u, v) = (at.luma_of(planes), at.first_chroma_of(planes), at.second_chroma_of(planes));
    let (luma, chroma) = (planes[at.y.plane as int], planes[at.u.plane as int]);
    lemma_gathered_at(luma, at.y, 1, 0, w, h, row, column);
    match at.v {
        Some(c) => {
            lemma_gathered_len(chroma, at.u, 1, 0, cw, ch);
            lemma_gathered_len(planes[c.plane as int], c, 1, 0, cw, ch);
            if row < ch && column < cw {
                lemma_gathered_at(chroma, at.u, 1, 0, cw, ch, row, column);
                lemma_gathered_at(planes[c.plane as int], c, 1, 0, cw, ch, row, column);
            }
        },
        None => {
            lemma_gathered_len(chroma, at.u, 2, 0, cw, ch);
            lemma_gathered_len(chroma, at.u, 2, 1, cw, ch);
            if row < ch && column < cw {
                lemma_gathered_at(chroma, at.u, 2, 0, cw, ch, row, column);
                lemma_gathered_at(chroma, at.u, 2, 1, cw, ch, row, column);
            }
        },
    }
    assert(y.len() == w * h && u.len() == cw * ch && v.len() == cw * ch);
}

/// Whether every one of `rows` rows of `width` bytes of a component ends inside its plane.
pub open spec fn room_for(planes: Seq<Seq<u8>>, at: Component, width: int, rows: int) -> bool {
    forall|row: int|
        0 <= row < rows ==> #[trigger] row_end(at, width, row) <= planes[at.plane as int].len()
}

/// Where a row of `width` bytes of a component ends.
pub open spec fn row_end(at: Component, width: int, row: int) -> int {
    at.offset + row * at.stride + width
}

/// Whether `row` is the first row of a component that ends outside its plane, and `err`
/// says so: how long the plane is, and how long it would have to be for that row.
pub open spec fn short_at(
    planes: Seq<Seq<u8>>,
    at: Component,
    width: int,
    rows: int,
    row: int,
    err: Error,
) -> bool {
    let plane = planes[at.plane as int];
    let end = row_end(at, width, row);
    &&& 0 <= row < rows
    &&& room_for(planes, at, width, row)
    &&& plane.len() < end
    &&& err matches Error::Short { len, needed }
    &&& plane.len() <= usize::MAX ==> len == plane.len()
    &&& end <= usize::MAX ==> needed == end
}

proof fn lemma_room(planes: Seq<Seq<u8>>, at: Component, width: int, rows: nat)
    ensures
        ({
            let r = copy_result(planes[at.plane as int].len() as int, at, width, rows);
            &&& r is Ok <==> room_for(planes, at, width, rows as int)
            &&& r matches Err(err) ==> short_of(planes, at, width, rows as int, err)
        }),
{
    let len = planes[at.plane as int].len() as int;
    let fit = fitting_rows(len, at, width, rows);
    lemma_fitting_rows(len, at, width, rows);
    if fit == rows {
        assert forall|row: int| 0 <= row < rows implies #[trigger] row_end(at, width, row)
            <= len by {
            assert(row_fits(len, at, width, row));
        }
    } else {
        assert(!row_fits(len, at, width, fit as int));
        assert(row_end(at, width, fit as int) > len);
        assert forall|row: int| 0 <= row < fit implies #[trigger] row_end(at, width, row)
            <= len by {
            assert(row_fits(len, at, width, row));
        }
        let err = copy_result(len, at, width, rows)->Err_0;
        assert(short_at(planes, at, width, rows as int, fit as int, err));
    }
}

/// Whether `err` says that some row of a component is the first to end outside its plane.
pub open spec fn short_of(
    planes: Seq<Seq<u8>>,
    at: Component,
    width: int,
    rows: int,
    err: Error,
) -> bool {
    exists|row: int| short_at(planes, at, width, rows, row, err)
}

/// The bytes of a chroma row at the first chroma component of a layout: a row of U, or of
/// U and V alternating.
pub open spec fn chroma_row(at: Planes) -> int {
    if at.v is Some {
        at.size.width as int / 2
    } else {
        2 * (at.size.width as int / 2)
    }
}

/// A picture is read exactly when every row of every component ends inside its plane. One
/// that is not says which plane is short: luma's, or else the first of chroma's, by the
/// first row that does not fit.
pub proof fn law_a_picture_is_read_when_all_of_it_is_there(at: Planes, planes: Seq<Seq<u8>>)
    ensures
        at.held(planes) is Ok <==> {
            &&& room_for(planes, at.y, at.size.width as int, at.size.height as int)
            &&& room_for(planes, at.u, chroma_row(at), at.size.height as int / 2)
            &&& at.v matches Some(v) ==> room_for(
                planes,
                v,
                at.size.width as int / 2,
                at.size.height as int / 2,
            )
        },
        at.held(planes) matches Err(err) ==> {
            if !room_for(planes, at.y, at.size.width as int, at.size.height as int) {
                short_of(planes, at.y, at.size.width as int, at.size.height as int, err)
            } else if !room_for(planes, at.u, chroma_row(at), at.size.height as int / 2) {
                short_of(planes, at.u, chroma_row(at), at.size.height as int / 2, err)
            } else {
                &&& at.v matches Some(v)
                &&& short_of(planes, v, at.size.width as int / 2, at.size.height as int / 2, err)
            }
        },
{
    lemma_room(planes, at.y, at.width() as int, at.height());
    lemma_room(planes, at.u, at.chroma_bytes(), at.chroma_rows());
    if let Some(v) = at.v {
        lemma_room(planes, v, at.chroma_width() as int, at.chroma_rows());
    }
}

/// A picture is taken exactly when one would be read: a buffer that holds a picture holds
/// any picture of that layout, and one that is too short fails either way alike.
pub proof fn law_a_picture_is_taken_when_it_could_be_read(
    at: Planes,
    planes: Seq<Seq<u8>>,
    y: Seq<u8>,
    u: Seq<u8>,
    v: Seq<u8>,
)
    requires
        at.y.plane < planes.len(),
        at.u.plane < planes.len(),
        at.v matches Some(c) ==> c.plane < planes.len(),
    ensures
        at.written(planes, y, u, v).1 is Ok <==> at.held(planes) is Ok,
        at.held(planes) matches Err(err) ==> at.written(planes, y, u, v).1 == Err::<(), Error>(err),
{
    let (w, h) = (at.width() as int, at.height());
    let (cw, ch) = (at.chroma_width() as int, at.chroma_rows());
    let dst_y = planes[at.y.plane as int];
    let fit = fitting_rows(dst_y.len() as int, at.y, w, h);
    lemma_put_rows_len(dst_y, at.y, |row: int| packed_row(y, w, row), fit);
    let luma = put_packed(planes, at.y, y, w, h).0;
    if let Some(c) = at.v {
        let dst_u = luma[at.u.plane as int];
        let fit = fitting_rows(dst_u.len() as int, at.u, cw, ch);
        lemma_put_rows_len(dst_u, at.u, |row: int| packed_row(u, cw, row), fit);
    }
}

/// A layout reaches a buffer that has the planes it names, wherever their ends are, as long
/// as this machine can count to the end of every row.
pub proof fn law_a_buffer_with_its_planes_is_reached(at: Planes, planes: Seq<Seq<u8>>)
    requires
        forall|row: int|
            0 <= row < at.size.height ==> #[trigger] row_end(at.y, at.size.width as int, row)
                <= usize::MAX,
        forall|row: int|
            0 <= row < at.size.height / 2 ==> #[trigger] row_end(at.u, chroma_row(at), row)
                <= usize::MAX,
        at.v matches Some(v) ==> forall|row: int|
            0 <= row < at.size.height / 2 ==> #[trigger] row_end(v, at.size.width as int / 2, row)
                <= usize::MAX,
    ensures
        at.addresses(planes) <==> {
            &&& at.y.plane < planes.len()
            &&& at.u.plane < planes.len()
            &&& at.v matches Some(v) ==> v.plane < planes.len()
        },
{
    assert(at.chroma_bytes() == chroma_row(at));
    lemma_counts(planes[at.y.plane as int].len() as int, at.y, at.width() as int, at.height());
    lemma_counts(
        planes[at.u.plane as int].len() as int,
        at.u,
        at.chroma_bytes(),
        at.chroma_rows(),
    );
    if let Some(v) = at.v {
        lemma_counts(
            planes[v.plane as int].len() as int,
            v,
            at.chroma_width() as int,
            at.chroma_rows(),
        );
    }
}

proof fn lemma_counts(len: int, at: Component, width: int, rows: nat)
    requires
        forall|row: int| 0 <= row < rows ==> #[trigger] row_end(at, width, row) <= usize::MAX,
    ensures
        copyable(len, at, width, rows, 0, 0),
{
    lemma_fitting_rows(len, at, width, rows);
    let fit = fitting_rows(len, at, width, rows);
    assert(fit * 0 == 0);
    if fit < rows {
        assert(row_end(at, width, fit as int) <= usize::MAX);
    }
}

/// A buffer whose luma plane is short still has every row of luma that ends inside it
/// written, up to the first that does not, and its chroma left alone.
pub proof fn law_rows_that_fit_are_written(
    at: Planes,
    planes: Seq<Seq<u8>>,
    y: Seq<u8>,
    u: Seq<u8>,
    v: Seq<u8>,
    row: int,
    column: int,
)
    requires
        at.apart(),
        at.y.plane < planes.len(),
        at.size.width * at.size.height <= y.len(),
        !room_for(planes, at.y, at.size.width as int, at.size.height as int),
        0 <= row < at.size.height,
        0 <= column < at.size.width,
        row_end(at.y, at.size.width as int, row) <= planes[at.y.plane as int].len(),
    ensures
        ({
            let done = at.written(planes, y, u, v).0;
            &&& done[at.y.plane as int][at.y.offset + row * at.y.stride + column] == y[row
                * at.size.width + column]
            &&& forall|plane: int|
                0 <= plane < planes.len() && plane != at.y.plane ==> #[trigger] done[plane]
                    == planes[plane]
        }),
{
    lemma_sample_counts(at);
    let (w, h) = (at.width() as int, at.height());
    let dst = planes[at.y.plane as int];
    let fit = fitting_rows(dst.len() as int, at.y, w, h);
    lemma_room(planes, at.y, w, h);
    lemma_fitting_rows(dst.len() as int, at.y, w, h);
    if row >= fit {
        lemma_row_start_grows(at.y, fit as int, row);
        assert(!row_fits(dst.len() as int, at.y, w, fit as int));
    }
    assert(fit * w <= h * w) by (nonlinear_arith)
        requires
            fit <= h,
            0 <= w,
    ;
    assert(at.size.width * at.size.height == h * w) by (nonlinear_arith)
        requires
            h == at.size.height,
            w == at.size.width,
    ;
    lemma_packed_lands(dst, at.y, y, w, fit, row, column);
}

} // verus!

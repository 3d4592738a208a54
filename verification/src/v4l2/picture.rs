//! Copying whole pictures in and out of a queue's buffers.

use vstd::prelude::*;

use super::copy::{
    copy_result, copyable, fitting_rows, gather, gathered, interleave, interleaved,
    lemma_fitting_rows, lemma_gathered_len, lemma_scattered_len, row_start, scatter, scattered,
};
use super::planes::{Component, Planes};
use crate::error::Error;
use crate::frame::{lemma_area_bound, I420};

verus! {

/// One mapped plane of one buffer, lent for the length of a copy.
pub struct Mapping<'a> {
    pub bytes: &'a mut [u8],
}

/// One buffer of a queue, one entry per plane, while it is ours and not the
/// driver's.
pub struct Buffer<'a> {
    pub planes: Vec<Mapping<'a>>,
}

impl<'a> Mapping<'a> {
    pub open spec fn view(&self) -> Seq<u8> {
        self.bytes@
    }

    /// Lend the bytes of a plane. What is written to the mapping is written to them.
    pub fn new(bytes: &'a mut [u8]) -> (mapping: Mapping<'a>)
        ensures
            mapping@ == old(bytes)@,
            final(mapping.bytes)@ == final(bytes)@,
    {
        Mapping { bytes }
    }
}

impl<'a> Buffer<'a> {
    /// The bytes of each plane.
    pub open spec fn view(&self) -> Seq<Seq<u8>> {
        self.planes@.map_values(|mapping: Mapping<'a>| mapping@)
    }

    /// A buffer of these planes. What is written to it is written to them.
    pub fn new(planes: Vec<Mapping<'a>>) -> (buffer: Buffer<'a>)
        ensures
            buffer.planes@.len() == planes@.len(),
            forall|i: int|
                #![trigger buffer.planes@[i]]
                0 <= i < planes@.len() ==> final(buffer.planes@[i].bytes)@
                    == final(planes@[i].bytes)@,
            buffer@ == planes@.map_values(|mapping: Mapping<'a>| mapping@),
    {
        Buffer { planes }
    }

    /// How many planes are mapped.
    pub fn count(&self) -> (count: usize)
        ensures
            count == self@.len(),
    {
        self.planes.len()
    }

    /// One plane of the buffer, for the whole mapped length.
    pub fn plane(&self, plane: usize) -> (r: &[u8])
        requires
            plane < self@.len(),
        ensures
            r@ == self@[plane as int],
    {
        &*self.planes[plane].bytes
    }

    /// One plane of the buffer, writable.
    pub fn plane_mut(&mut self, plane: usize) -> (r: &mut [u8])
        requires
            plane < old(self)@.len(),
        ensures
            r@ == old(self)@[plane as int],
            final(self)@ == old(self)@.update(plane as int, final(r)@),
            final(self).planes@.len() == old(self).planes@.len(),
            forall|i: int|
                #![trigger final(self).planes@[i]]
                0 <= i < old(self).planes@.len() ==> final(final(self).planes@[i].bytes)@
                    == final(old(self).planes@[i].bytes)@,
    {
        &mut *self.planes[plane].bytes
    }
}

/// The planes of a buffer after packed rows are copied into one component of it,
/// and what the copy came to.
pub open spec fn put_packed(
    planes: Seq<Seq<u8>>,
    at: Component,
    src: Seq<u8>,
    width: int,
    rows: nat,
) -> (Seq<Seq<u8>>, Result<(), Error>) {
    let dst = planes[at.plane as int];
    let len = dst.len() as int;
    (
        planes.update(
            at.plane as int,
            scattered(dst, at, src, width, fitting_rows(len, at, width, rows)),
        ),
        copy_result(len, at, width, rows),
    )
}

/// The planes of a buffer after two components are interleaved into one of its
/// planes, and what the copy came to.
pub open spec fn put_paired(
    planes: Seq<Seq<u8>>,
    at: Component,
    u: Seq<u8>,
    v: Seq<u8>,
    width: int,
    rows: nat,
) -> (Seq<Seq<u8>>, Result<(), Error>) {
    let dst = planes[at.plane as int];
    let len = dst.len() as int;
    (
        planes.update(
            at.plane as int,
            interleaved(dst, at, u, v, width, fitting_rows(len, at, 2 * width, rows)),
        ),
        copy_result(len, at, 2 * width, rows),
    )
}

/// Whether this machine can count to the end of the first row of a component
/// that a plane of `len` bytes is too small for.
fn countable(len: usize, at: Component, width: u64, rows: usize) -> (countable: bool)
    requires
        width <= u32::MAX,
        rows <= u32::MAX,
    ensures
        countable == copyable(len as int, at, width as int, rows as nat, 0, 0),
{
    let mut fit: usize = rows;
    while fit > 0
        invariant
            fit <= rows <= u32::MAX,
            width <= u32::MAX,
            fitting_rows(len as int, at, width as int, rows as nat) == fitting_rows(
                len as int,
                at,
                width as int,
                fit as nat,
            ),
            fit < rows ==> row_start(at, fit as int) + width > len,
        decreases fit,
    {
        let end = end_of_row(at, width, fit - 1);
        if end <= len as u128 {
            return fit == rows || end_of_row(at, width, fit) <= usize::MAX as u128;
        }
        fit = fit - 1;
    }
    rows == 0 || end_of_row(at, width, 0) <= usize::MAX as u128
}

fn end_of_row(at: Component, width: u64, row: usize) -> (end: u128)
    requires
        width <= u32::MAX,
        row <= u32::MAX,
    ensures
        end == row_start(at, row as int) + width,
{
    let (row, stride) = (row as u128, at.stride as u128);
    assert(0 <= row * stride <= 0x1_0000_0000 * 0x1_0000_0000_0000_0000) by (nonlinear_arith)
        requires
            0 <= row <= 0x1_0000_0000,
            0 <= stride <= 0x1_0000_0000_0000_0000,
    ;
    at.offset as u128 + row * stride + width as u128
}

impl Planes {
    pub open spec fn width(self) -> nat {
        self.size.width as nat
    }

    pub open spec fn height(self) -> nat {
        self.size.height as nat
    }

    /// Chroma samples per row.
    pub open spec fn chroma_width(self) -> nat {
        self.size.width as nat / 2
    }

    pub open spec fn chroma_rows(self) -> nat {
        self.size.height as nat / 2
    }

    /// Bytes per row of the component at `u`.
    pub open spec fn chroma_bytes(self) -> int {
        if self.v is Some {
            self.chroma_width() as int
        } else {
            2 * self.chroma_width() as int
        }
    }

    /// Every component is in a plane the buffer has, at positions this machine
    /// can count to.
    pub open spec fn addresses(self, planes: Seq<Seq<u8>>) -> bool {
        &&& self.y.plane < planes.len()
        &&& self.u.plane < planes.len()
        &&& copyable(
            planes[self.y.plane as int].len() as int,
            self.y,
            self.width() as int,
            self.height(),
            0,
            0,
        )
        &&& copyable(
            planes[self.u.plane as int].len() as int,
            self.u,
            self.chroma_bytes(),
            self.chroma_rows(),
            0,
            0,
        )
        &&& self.v matches Some(v) ==> {
            &&& v.plane < planes.len()
            &&& copyable(
                planes[v.plane as int].len() as int,
                v,
                self.chroma_width() as int,
                self.chroma_rows(),
                0,
                0,
            )
        }
    }

    /// A buffer's planes after a picture is written to them, and what that came
    /// to: luma first, then chroma, stopping at the first component whose plane
    /// is too small for it.
    pub open spec fn written(
        self,
        planes: Seq<Seq<u8>>,
        y: Seq<u8>,
        u: Seq<u8>,
        v: Seq<u8>,
    ) -> (Seq<Seq<u8>>, Result<(), Error>) {
        let luma = put_packed(planes, self.y, y, self.width() as int, self.height());
        if luma.1 is Err {
            luma
        } else {
            match self.v {
                Some(at) => {
                    let first = put_packed(
                        luma.0,
                        self.u,
                        u,
                        self.chroma_width() as int,
                        self.chroma_rows(),
                    );
                    if first.1 is Err {
                        first
                    } else {
                        put_packed(
                            first.0,
                            at,
                            v,
                            self.chroma_width() as int,
                            self.chroma_rows(),
                        )
                    }
                },
                None => put_paired(
                    luma.0,
                    self.u,
                    u,
                    v,
                    self.chroma_width() as int,
                    self.chroma_rows(),
                ),
            }
        }
    }

    /// The luma samples of a buffer, tightly packed.
    pub open spec fn luma_of(self, planes: Seq<Seq<u8>>) -> Seq<u8> {
        gathered(planes[self.y.plane as int], self.y, 1, 0, self.width(), self.height())
    }

    /// The first chroma component of a buffer, tightly packed.
    pub open spec fn first_chroma_of(self, planes: Seq<Seq<u8>>) -> Seq<u8> {
        let step: int = if self.v is Some {
            1
        } else {
            2
        };
        gathered(
            planes[self.u.plane as int],
            self.u,
            step,
            0,
            self.chroma_width(),
            self.chroma_rows(),
        )
    }

    /// The second chroma component of a buffer, tightly packed.
    pub open spec fn second_chroma_of(self, planes: Seq<Seq<u8>>) -> Seq<u8> {
        match self.v {
            Some(v) => gathered(
                planes[v.plane as int],
                v,
                1,
                0,
                self.chroma_width(),
                self.chroma_rows(),
            ),
            None => gathered(
                planes[self.u.plane as int],
                self.u,
                2,
                1,
                self.chroma_width(),
                self.chroma_rows(),
            ),
        }
    }

    /// The picture a buffer holds, or the first component whose plane is too
    /// small for it.
    pub open spec fn held(self, planes: Seq<Seq<u8>>) -> Result<Seq<u8>, Error> {
        let y = copy_result(
            planes[self.y.plane as int].len() as int,
            self.y,
            self.width() as int,
            self.height(),
        );
        let u = copy_result(
            planes[self.u.plane as int].len() as int,
            self.u,
            self.chroma_bytes(),
            self.chroma_rows(),
        );
        let v = match self.v {
            Some(v) => copy_result(
                planes[v.plane as int].len() as int,
                v,
                self.chroma_width() as int,
                self.chroma_rows(),
            ),
            None => Ok(()),
        };
        if y is Err {
            Err(y->Err_0)
        } else if u is Err {
            Err(u->Err_0)
        } else if v is Err {
            Err(v->Err_0)
        } else {
            Ok(
                self.luma_of(planes) + self.first_chroma_of(planes) + self.second_chroma_of(
                    planes,
                ),
            )
        }
    }

    /// Whether every component is in a plane the buffer has, at positions this
    /// machine can count to.
    pub fn reaches(&self, buffer: &Buffer<'_>) -> (reaches: bool)
        ensures
            reaches == self.addresses(buffer@),
    {
        let (width, height) = (self.size.width as usize, self.size.height as usize);
        let (chroma_width, chroma_rows) = (width / 2, height / 2);
        let count = buffer.count();
        if self.y.plane >= count || self.u.plane >= count {
            return false;
        }
        if !countable(buffer.plane(self.y.plane).len(), self.y, width as u64, height) {
            return false;
        }
        let chroma = buffer.plane(self.u.plane).len();
        match self.v {
            None => countable(chroma, self.u, 2 * chroma_width as u64, chroma_rows),
            Some(v) => v.plane < count && countable(
                chroma,
                self.u,
                chroma_width as u64,
                chroma_rows,
            ) && countable(buffer.plane(v.plane).len(), v, chroma_width as u64, chroma_rows),
        }
    }

    /// Copy a frame into a buffer, laying each plane out the way the driver
    /// asked for.
    pub fn write(&self, buffer: &mut Buffer<'_>, frame: &I420) -> (r: Result<(), Error>)
        requires
            frame.wf(),
            self.size.area() <= frame.spec_size().area(),
            self.size.chroma_area() <= frame.spec_size().chroma_area(),
            self.addresses(old(buffer)@),
        ensures
            (final(buffer)@, r) == self.written(
                old(buffer)@,
                frame.spec_y(),
                frame.spec_u(),
                frame.spec_v(),
            ),
            // The planes are still the ones that were lent.
            final(buffer).planes@.len() == old(buffer).planes@.len(),
            forall|i: int|
                #![trigger final(buffer).planes@[i]]
                0 <= i < old(buffer).planes@.len() ==> final(final(buffer).planes@[i].bytes)@
                    == final(old(buffer).planes@[i].bytes)@,
    {
        let (width, height) = (self.size.width as usize, self.size.height as usize);
        let (chroma_width, chroma_rows) = (width / 2, height / 2);
        proof {
            lemma_area_bound(frame.spec_size());
            lemma_enough(*self, buffer@, frame.spec_y(), frame.spec_u(), frame.spec_v());
        }

        match scatter(buffer.plane_mut(self.y.plane), self.y, frame.y(), width, height) {
            Err(err) => { return Err(err); },
            Ok(()) => {},
        }
        proof {
            lemma_scattered_len(
                old(buffer)@[self.y.plane as int],
                self.y,
                frame.spec_y(),
                width as int,
                self.height(),
            );
            lemma_enough(*self, buffer@, frame.spec_y(), frame.spec_u(), frame.spec_v());
        }
        let ghost luma = buffer@;
        match self.v {
            Some(v) => {
                match scatter(
                    buffer.plane_mut(self.u.plane),
                    self.u,
                    frame.u(),
                    chroma_width,
                    chroma_rows,
                ) {
                    Err(err) => { return Err(err); },
                    Ok(()) => {},
                }
                proof {
                    lemma_scattered_len(
                        luma[self.u.plane as int],
                        self.u,
                        frame.spec_u(),
                        chroma_width as int,
                        self.chroma_rows(),
                    );
                    lemma_enough(*self, buffer@, frame.spec_y(), frame.spec_u(), frame.spec_v());
                }
                scatter(buffer.plane_mut(v.plane), v, frame.v(), chroma_width, chroma_rows)
            },
            None => interleave(
                buffer.plane_mut(self.u.plane),
                self.u,
                frame.u(),
                frame.v(),
                chroma_width,
                chroma_rows,
            ),
        }
    }

    /// Copy a picture out of a buffer into tightly packed planes.
    pub fn read(&self, buffer: &Buffer<'_>) -> (r: Result<I420, Error>)
        requires
            self.size.valid(),
            self.addresses(buffer@),
        ensures
            match self.held(buffer@) {
                Ok(samples) => {
                    &&& r is Ok
                    &&& r->Ok_0.wf()
                    &&& r->Ok_0.spec_size() == self.size
                    &&& r->Ok_0@ == samples
                },
                Err(err) => r == Err::<I420, Error>(err),
            },
    {
        let (width, height) = (self.size.width as usize, self.size.height as usize);
        let (chroma_width, chroma_rows) = (width / 2, height / 2);
        let mut data: Vec<u8> = Vec::new();
        match gather(buffer.plane(self.y.plane), self.y, 1, 0, width, height, &mut data) {
            Err(err) => { return Err(err); },
            Ok(()) => {},
        }
        match self.v {
            Some(v) => {
                match gather(
                    buffer.plane(self.u.plane),
                    self.u,
                    1,
                    0,
                    chroma_width,
                    chroma_rows,
                    &mut data,
                ) {
                    Err(err) => { return Err(err); },
                    Ok(()) => {},
                }
                match gather(
                    buffer.plane(v.plane),
                    v,
                    1,
                    0,
                    chroma_width,
                    chroma_rows,
                    &mut data,
                ) {
                    Err(err) => { return Err(err); },
                    Ok(()) => {},
                }
            },
            None => {
                match gather(
                    buffer.plane(self.u.plane),
                    self.u,
                    2,
                    0,
                    chroma_width,
                    chroma_rows,
                    &mut data,
                ) {
                    Err(err) => { return Err(err); },
                    Ok(()) => {},
                }
                match gather(
                    buffer.plane(self.u.plane),
                    self.u,
                    2,
                    1,
                    chroma_width,
                    chroma_rows,
                    &mut data,
                ) {
                    Err(err) => { return Err(err); },
                    Ok(()) => {},
                }
            },
        }
        proof {
            lemma_held_len(*self, buffer@);
            assert(data@ == self.luma_of(buffer@) + self.first_chroma_of(buffer@)
                + self.second_chroma_of(buffer@));
        }
        I420::new(self.size.width, self.size.height, data)
    }
}

/// The components of a buffer have the lengths the picture's size calls for.
proof fn lemma_held_len(at: Planes, planes: Seq<Seq<u8>>)
    ensures
        at.luma_of(planes).len() == at.size.area(),
        at.first_chroma_of(planes).len() == at.size.chroma_area(),
        at.second_chroma_of(planes).len() == at.size.chroma_area(),
{
    let (w, h) = (at.chroma_width(), at.chroma_rows());
    let step: int = if at.v is Some {
        1
    } else {
        2
    };
    lemma_gathered_len(planes[at.y.plane as int], at.y, 1, 0, at.width(), at.height());
    lemma_gathered_len(planes[at.u.plane as int], at.u, step, 0, w, h);
    match at.v {
        Some(v) => lemma_gathered_len(planes[v.plane as int], v, 1, 0, w, h),
        None => lemma_gathered_len(planes[at.u.plane as int], at.u, 2, 1, w, h),
    }
    assert(at.height() * at.width() == at.size.area()) by (nonlinear_arith)
        requires
            at.height() == at.size.height,
            at.width() == at.size.width,
            at.size.area() == at.size.width as int * at.size.height as int,
    ;
    assert(h * w == w * h) by (nonlinear_arith);
}

/// A frame at least as large as the picture has the samples every copy takes.
proof fn lemma_enough(at: Planes, planes: Seq<Seq<u8>>, y: Seq<u8>, u: Seq<u8>, v: Seq<u8>)
    requires
        at.addresses(planes),
        at.size.area() <= y.len(),
        at.size.chroma_area() <= u.len(),
        at.size.chroma_area() <= v.len(),
    ensures
        copyable(
            planes[at.y.plane as int].len() as int,
            at.y,
            at.width() as int,
            at.height(),
            at.width() as int,
            y.len() as int,
        ),
        copyable(
            planes[at.u.plane as int].len() as int,
            at.u,
            at.chroma_bytes(),
            at.chroma_rows(),
            at.chroma_width() as int,
            u.len() as int,
        ),
        copyable(
            planes[at.u.plane as int].len() as int,
            at.u,
            at.chroma_bytes(),
            at.chroma_rows(),
            at.chroma_width() as int,
            v.len() as int,
        ),
        at.v matches Some(c) ==> copyable(
            planes[c.plane as int].len() as int,
            c,
            at.chroma_width() as int,
            at.chroma_rows(),
            at.chroma_width() as int,
            v.len() as int,
        ),
{
    lemma_rows_are_samples(
        planes[at.y.plane as int].len() as int,
        at.y,
        at.width() as int,
        at.height(),
        at.width(),
    );
    lemma_rows_are_samples(
        planes[at.u.plane as int].len() as int,
        at.u,
        at.chroma_bytes(),
        at.chroma_rows(),
        at.chroma_width(),
    );
    assert(at.height() * at.width() == at.size.area()) by (nonlinear_arith)
        requires
            at.height() == at.size.height,
            at.width() == at.size.width,
            at.size.area() == at.size.width as int * at.size.height as int,
    ;
    let (w, h) = (at.chroma_width(), at.chroma_rows());
    assert(h * w == w * h) by (nonlinear_arith);
    if let Some(v) = at.v {
        lemma_rows_are_samples(
            planes[v.plane as int].len() as int,
            v,
            at.chroma_width() as int,
            at.chroma_rows(),
            at.chroma_width(),
        );
    }
}

/// The rows that fit are at most all of them.
proof fn lemma_rows_are_samples(len: int, at: Component, bytes: int, rows: nat, samples: nat)
    ensures
        fitting_rows(len, at, bytes, rows) * samples <= rows * samples,
{
    lemma_fitting_rows(len, at, bytes, rows);
    let fit = fitting_rows(len, at, bytes, rows);
    assert(fit * samples <= rows * samples) by (nonlinear_arith)
        requires
            fit <= rows,
    ;
}

} // verus!

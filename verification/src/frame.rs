//! Pictures: their size, their color space, and their samples.

use vstd::prelude::*;

use crate::error::Error;

verus! {

/// The dimensions of a picture in pixels.
#[derive(Clone, Copy, Debug, PartialEq, Eq, Structural)]
pub struct Size {
    pub width: u32,
    pub height: u32,
}

impl Size {
    /// Whether a 4:2:0 picture can have this size: whole 2x2 chroma samples, and
    /// at least one of them.
    pub open spec fn valid(self) -> bool {
        &&& self.width > 0
        &&& self.height > 0
        &&& self.width % 2 == 0
        &&& self.height % 2 == 0
    }

    /// Bytes of luma, one per pixel.
    pub open spec fn area(self) -> int {
        self.width as int * self.height as int
    }

    /// Bytes of either chroma component, one per 2x2 block.
    pub open spec fn chroma_area(self) -> int {
        (self.width as int / 2) * (self.height as int / 2)
    }

    pub fn new(width: u32, height: u32) -> (size: Size)
        ensures
            size.width == width,
            size.height == height,
    {
        Size { width, height }
    }

    /// How many pixels the picture has.
    pub fn pixels(self) -> (pixels: u64)
        ensures
            pixels == self.area(),
    {
        proof {
            lemma_area_bound(self);
        }
        self.width as u64 * self.height as u64
    }

    /// Refuse a size that 4:2:0 cannot represent.
    pub fn validate(self) -> (r: Result<(), Error>)
        ensures
            r == if self.valid() {
                Ok(())
            } else {
                Err(Error::InvalidSize { size: self })
            },
    {
        if self.width == 0 || self.height == 0 || self.width % 2 != 0 || self.height % 2 != 0 {
            Err(Error::InvalidSize { size: self })
        } else {
            Ok(())
        }
    }
}

pub proof fn lemma_area_bound(size: Size)
    ensures
        0 <= size.area() <= 0xffff_ffff * 0xffff_ffff,
        0 <= size.chroma_area() <= 0x7fff_ffff * 0x7fff_ffff,
{
    assert(0 <= size.width as int * size.height as int <= 0xffff_ffff * 0xffff_ffff)
        by (nonlinear_arith)
        requires
            0 <= size.width <= 0xffff_ffff,
            0 <= size.height <= 0xffff_ffff,
    ;
    let (w, h) = (size.width as int / 2, size.height as int / 2);
    assert(0 <= w * h <= 0x7fff_ffff * 0x7fff_ffff) by (nonlinear_arith)
        requires
            0 <= w <= 0x7fff_ffff,
            0 <= h <= 0x7fff_ffff,
    ;
}

/// The color space of a picture's samples: the matrix and the range.
#[derive(Clone, Copy, Debug, PartialEq, Eq, Structural)]
pub enum Color {
    Bt601Limited,
    Bt601Full,
    Bt709Limited,
    Bt709Full,
}

impl Color {
    /// Whether the samples leave head and foot room.
    pub fn limited(self) -> (limited: bool)
        ensures
            limited == (self is Bt601Limited || self is Bt709Limited),
    {
        match self {
            Color::Bt601Limited | Color::Bt709Limited => true,
            Color::Bt601Full | Color::Bt709Full => false,
        }
    }
}

/// A planar 8-bit 4:2:0 picture, luma then U then V, each tightly packed.
#[derive(Clone, Debug)]
pub struct I420 {
    size: Size,
    data: Vec<u8>,
}

impl I420 {
    pub closed spec fn spec_size(&self) -> Size {
        self.size
    }

    /// All three components, in storage order.
    pub closed spec fn view(&self) -> Seq<u8> {
        self.data@
    }

    /// A valid size and exactly the samples it calls for.
    pub open spec fn wf(&self) -> bool {
        &&& self.spec_size().valid()
        &&& self@.len() == self.spec_size().area() + 2 * self.spec_size().chroma_area()
    }

    pub open spec fn spec_y(&self) -> Seq<u8> {
        self@.subrange(0, self.spec_size().area())
    }

    pub open spec fn spec_u(&self) -> Seq<u8> {
        self@.subrange(
            self.spec_size().area(),
            self.spec_size().area() + self.spec_size().chroma_area(),
        )
    }

    pub open spec fn spec_v(&self) -> Seq<u8> {
        self@.subrange(
            self.spec_size().area() + self.spec_size().chroma_area(),
            self.spec_size().area() + 2 * self.spec_size().chroma_area(),
        )
    }

    /// Take `data` as a picture of the given dimensions, if it is one.
    pub fn new(width: u32, height: u32, data: Vec<u8>) -> (r: Result<I420, Error>)
        ensures
            ({
                let size = Size { width, height };
                if !size.valid() {
                    r == Err::<I420, Error>(Error::InvalidSize { size })
                } else if data@.len() != size.area() + 2 * size.chroma_area() {
                    r == Err::<I420, Error>(Error::InvalidLength { len: data.len(), size })
                } else {
                    &&& r is Ok
                    &&& r->Ok_0.wf()
                    &&& r->Ok_0.spec_size() == size
                    &&& r->Ok_0@ == data@
                }
            }),
    {
        let size = Size { width, height };
        match size.validate() {
            Err(err) => { return Err(err); },
            Ok(()) => {},
        }
        proof {
            lemma_area_bound(size);
        }
        let chroma: u64 = (width as u64 / 2) * (height as u64 / 2);
        if data.len() as u128 != size.pixels() as u128 + 2 * chroma as u128 {
            return Err(Error::InvalidLength { len: data.len(), size });
        }
        Ok(I420 { size, data })
    }

    pub fn size(&self) -> (size: Size)
        ensures
            size == self.spec_size(),
    {
        self.size
    }

    /// All three components, in storage order.
    pub fn data(&self) -> (data: &[u8])
        ensures
            data@ == self@,
    {
        self.data.as_slice()
    }

    /// How many luma samples there are, and how many of either chroma component.
    fn lengths(&self) -> (r: (usize, usize))
        requires
            self.wf(),
        ensures
            r.0 == self.spec_size().area(),
            r.1 == self.spec_size().chroma_area(),
            r.0 + 2 * r.1 == self@.len(),
            self@.len() <= usize::MAX,
    {
        proof {
            lemma_area_bound(self.size);
        }
        assert(self.data.len() == self@.len());
        let (width, height) = (self.size.width as u64, self.size.height as u64);
        (self.size.pixels() as usize, ((width / 2) * (height / 2)) as usize)
    }

    /// The luma samples.
    pub fn y(&self) -> (y: &[u8])
        requires
            self.wf(),
        ensures
            y@ == self.spec_y(),
    {
        let (area, _) = self.lengths();
        vstd::slice::slice_subrange(self.data.as_slice(), 0, area)
    }

    /// The first chroma component.
    pub fn u(&self) -> (u: &[u8])
        requires
            self.wf(),
        ensures
            u@ == self.spec_u(),
    {
        let (area, chroma) = self.lengths();
        vstd::slice::slice_subrange(self.data.as_slice(), area, area + chroma)
    }

    /// The second chroma component.
    pub fn v(&self) -> (v: &[u8])
        requires
            self.wf(),
        ensures
            v@ == self.spec_v(),
    {
        let (area, chroma) = self.lengths();
        vstd::slice::slice_subrange(self.data.as_slice(), area + chroma, area + chroma + chroma)
    }
}

/// The sizes 4:2:0 can represent are those made of whole 2x2 blocks, at least one of them.
pub proof fn law_a_valid_size_is_whole_blocks(size: Size, across: int, down: int)
    requires
        2 * across <= size.width < 2 * across + 2,
        2 * down <= size.height < 2 * down + 2,
    ensures
        size.valid() <==> {
            &&& across > 0
            &&& down > 0
            &&& size.width == 2 * across
            &&& size.height == 2 * down
        },
{
}

/// A picture is its luma, then U, then V, and nothing else: a byte of luma for every
/// pixel, and a byte of either chroma for every 2x2 block of them.
pub proof fn law_a_picture_is_its_components(picture: &I420, across: int, down: int)
    requires
        picture.wf(),
        picture.spec_size().width == 2 * across,
        picture.spec_size().height == 2 * down,
    ensures
        picture@ == picture.spec_y() + picture.spec_u() + picture.spec_v(),
        picture.spec_y().len() == (2 * across) * (2 * down),
        picture.spec_u().len() == across * down,
        picture.spec_v().len() == across * down,
{
    lemma_area_bound(picture.spec_size());
    assert(picture@ =~= picture.spec_y() + picture.spec_u() + picture.spec_v());
}

} // verus!

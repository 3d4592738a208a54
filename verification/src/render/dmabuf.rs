//! Zero-copy import of packed Linux DMA-BUFs into a Vulkan device.
//!
//! The importer takes one stride and one offset, so a buffer Vulkan will not take
//! as a single plane has no route through it: a modifier carrying an auxiliary
//! compression plane, or a driver that does not list the modifier at all. With a
//! VA-API post-processor such a buffer gets a second chance, blitted on the GPU
//! into an allocation the driver lays out itself. The direct import is always
//! tried first, since it copies nothing at all.

use vstd::prelude::*;
use vstd::string::*;

use crate::error::Error;
use crate::frame::Size;
use crate::message::{lemma_says, lemma_says_more, says};
use crate::text::{decimal, hex, push_decimal, push_hex};
use crate::v4l2::fourcc::{law_a_code_is_its_letters, letters};

verus! {

/// A pixel format as DRM names it.
#[derive(Clone, Copy, Debug, PartialEq, Eq, Structural)]
pub struct DrmFormat {
    pub raw: u32,
}

/// `DRM_FORMAT_XRGB8888`.
pub const XRGB8888: u32 = 0x3432_5258;

/// `DRM_FORMAT_ARGB8888`.
pub const ARGB8888: u32 = 0x3432_5241;

/// `DRM_FORMAT_XBGR8888`.
pub const XBGR8888: u32 = 0x3432_4258;

/// `DRM_FORMAT_ABGR8888`.
pub const ABGR8888: u32 = 0x3432_4241;

/// `VA_FOURCC_BGRX`.
pub const VA_BGRX: u32 = 0x5852_4742;

/// `VA_FOURCC_BGRA`.
pub const VA_BGRA: u32 = 0x4152_4742;

/// `VA_FOURCC_RGBX`.
pub const VA_RGBX: u32 = 0x5842_4752;

/// `VA_FOURCC_RGBA`.
pub const VA_RGBA: u32 = 0x4142_4752;

/// A texture format a packed buffer is sampled as.
#[derive(Clone, Copy, Debug, PartialEq, Eq, Structural)]
pub enum Texture {
    Bgra8Unorm,
    Rgba8Unorm,
}

impl DrmFormat {
    /// The channels of a packed format, from the most significant byte of a pixel
    /// down, if it is one that can be sampled.
    pub open spec fn channels(self) -> Option<Seq<u8>> {
        if self.raw == XRGB8888 {
            Some(seq![88u8, 82, 71, 66])
        } else if self.raw == ARGB8888 {
            Some(seq![65u8, 82, 71, 66])
        } else if self.raw == XBGR8888 {
            Some(seq![88u8, 66, 71, 82])
        } else if self.raw == ABGR8888 {
            Some(seq![65u8, 66, 71, 82])
        } else {
            None
        }
    }

    /// The texture format it is sampled as: blue first in memory, or red.
    pub open spec fn texture(self) -> Option<Texture> {
        match self.channels() {
            None => None,
            Some(channels) => if channels[3] == 66 {
                Some(Texture::Bgra8Unorm)
            } else {
                Some(Texture::Rgba8Unorm)
            },
        }
    }

    /// The VA-API fourcc naming the same layout.
    pub open spec fn va(self) -> Option<u32> {
        if self.raw == XRGB8888 {
            Some(VA_BGRX)
        } else if self.raw == ARGB8888 {
            Some(VA_BGRA)
        } else if self.raw == XBGR8888 {
            Some(VA_RGBX)
        } else if self.raw == ABGR8888 {
            Some(VA_RGBA)
        } else {
            None
        }
    }
}

fn refusal(what: &str, raw: u32) -> (err: Error)
    ensures
        err matches Error::Render { what: text } && text@ == what@ + hex(raw as nat),
{
    let mut text = what.to_owned();
    push_hex(&mut text, raw as u64);
    Error::Render { what: text }
}

/// The texture format a packed DRM format is sampled as.
pub fn texture_format(format: DrmFormat) -> (r: Result<Texture, Error>)
    ensures
        match r {
            Ok(texture) => format.texture() == Some(texture),
            Err(Error::Render { what }) => format.texture() is None && what@
                == "cannot import DMA-BUF format "@ + hex(format.raw as nat),
            Err(_) => false,
        },
{
    if format.raw == XRGB8888 || format.raw == ARGB8888 {
        Ok(Texture::Bgra8Unorm)
    } else if format.raw == XBGR8888 || format.raw == ABGR8888 {
        Ok(Texture::Rgba8Unorm)
    } else {
        Err(refusal("cannot import DMA-BUF format ", format.raw))
    }
}

/// The VA-API fourcc naming the same layout as a packed DRM format.
///
/// DRM spells a pixel from its most significant byte down and VA-API from its
/// first byte in memory, so one layout has two reversed names.
pub fn va_fourcc(format: DrmFormat) -> (r: Result<u32, Error>)
    ensures
        match r {
            Ok(fourcc) => format.va() == Some(fourcc),
            Err(Error::Render { what }) => format.va() is None && what@
                == "no VA-API format for DMA-BUF format "@ + hex(format.raw as nat),
            Err(_) => false,
        },
{
    if format.raw == XRGB8888 {
        Ok(VA_BGRX)
    } else if format.raw == ARGB8888 {
        Ok(VA_BGRA)
    } else if format.raw == XBGR8888 {
        Ok(VA_RGBX)
    } else if format.raw == ABGR8888 {
        Ok(VA_RGBA)
    } else {
        Err(refusal("no VA-API format for DMA-BUF format ", format.raw))
    }
}

/// The two names of a layout are each other reversed, and every format that can be
/// sampled has both.
pub proof fn law_the_two_names_are_reversed(format: DrmFormat)
    ensures
        format.texture() is Some <==> format.va() is Some,
        format.va() matches Some(fourcc) ==> letters(fourcc) == format.channels()->0.reverse(),
{
    if let Some(fourcc) = format.va() {
        assert(letters(fourcc) =~= format.channels()->0.reverse());
    }
}

/// Where one plane of a buffer is.
#[derive(Clone, Copy, Debug, PartialEq, Eq, Structural)]
pub struct PlaneLayout {
    pub offset: u32,
    pub stride: u32,
}

/// What a producer says of a DMA-BUF.
#[derive(Clone, Debug)]
pub struct DmaBuf {
    pub format: DrmFormat,
    pub modifier: u64,
    pub size: Size,
    pub planes: Vec<PlaneLayout>,
}

/// What a device can do.
#[derive(Clone, Copy, Debug, PartialEq, Eq, Structural)]
pub struct Gpu {
    /// It imports DMA-BUFs.
    pub dma_buf: bool,
    /// It is a Vulkan device.
    pub vulkan: bool,
    /// A VA-API post-processor may be tried.
    pub vaapi: bool,
}

/// One plane to hand to the device and sample from.
#[derive(Clone, Copy, Debug, PartialEq, Eq, Structural)]
pub struct Adoption {
    pub texture: Texture,
    pub size: Size,
    pub modifier: u64,
    pub stride: u32,
    pub offset: u32,
    /// Whether the producer's lease is kept for as long as the texture is. An
    /// allocation of the post-processor's own is governed by none.
    pub leased: bool,
}

/// What to do next.
#[derive(Debug)]
pub enum Action {
    /// Nothing: the device cannot import, and the picture takes another route.
    Skip,
    /// Export the buffer, waiting for the producer's writes. One export, and so
    /// one wait, however many import attempts follow it.
    Export,
    /// Duplicate the exported descriptor, for a second attempt.
    Duplicate,
    /// Hand the exported plane to the device.
    Adopt(Adoption),
    /// Open the post-processor.
    OpenProcessor,
    /// Blit the buffer into an allocation of the post-processor's own, reading it
    /// as this VA-API format.
    Retile { fourcc: u32 },
    /// Export that allocation. The surface and the producer's lease can go after:
    /// the descriptor holds a reference of its own, and the blit has read the
    /// buffer.
    ExportRetiled,
    /// Hand the plane of that allocation to the device.
    AdoptRetiled(Adoption),
    /// Nothing: the texture is there.
    Imported,
    /// Nothing: the buffer cannot be imported.
    Fail(Error),
}

/// What an [`Action`] is.
pub enum Asked {
    Skip,
    Export,
    Duplicate,
    Adopt(Adoption),
    OpenProcessor,
    Retile { fourcc: u32 },
    ExportRetiled,
    AdoptRetiled(Adoption),
    Imported,
    Fail(Seq<char>),
}

impl Action {
    pub open spec fn view(&self) -> Asked {
        match self {
            Action::Skip => Asked::Skip,
            Action::Export => Asked::Export,
            Action::Duplicate => Asked::Duplicate,
            Action::Adopt(adoption) => Asked::Adopt(*adoption),
            Action::OpenProcessor => Asked::OpenProcessor,
            Action::Retile { fourcc } => Asked::Retile { fourcc: *fourcc },
            Action::ExportRetiled => Asked::ExportRetiled,
            Action::AdoptRetiled(adoption) => Asked::AdoptRetiled(*adoption),
            Action::Imported => Asked::Imported,
            Action::Fail(Error::Render { what }) => Asked::Fail(what@),
            Action::Fail(_) => Asked::Fail(Seq::empty()),
        }
    }
}

/// One layer of an exported surface.
#[derive(Clone, Copy, Debug, PartialEq, Eq, Structural)]
pub struct Layer {
    pub num_planes: u32,
    /// The stride and offset of its first plane.
    pub pitch: u32,
    pub offset: u32,
}

/// What the post-processor says of the allocation it exported.
#[derive(Clone, Debug)]
pub struct Exported {
    /// The modifier of each object.
    pub objects: Vec<u64>,
    pub layers: Vec<Layer>,
}

/// What came of an [`Action`].
#[derive(Debug)]
pub enum Reply {
    /// It was done.
    Done,
    /// It failed, and why.
    Failed(String),
    /// The allocation that was exported.
    Retiled(Exported),
}

/// What a [`Reply`] says.
pub enum Told {
    Done,
    Failed(Seq<char>),
    Retiled { objects: Seq<u64>, layers: Seq<Layer> },
}

impl Reply {
    pub open spec fn view(&self) -> Told {
        match self {
            Reply::Done => Told::Done,
            Reply::Failed(why) => Told::Failed(why@),
            Reply::Retiled(exported) => Told::Retiled {
                objects: exported.objects@,
                layers: exported.layers@,
            },
        }
    }
}

/// The post-processor, opened the first time a buffer needs re-tiling.
///
/// A host with no VA-API device, or one whose driver has no post-processing
/// entrypoint, is remembered as unavailable so it pays for the attempt once rather
/// than per frame.
#[derive(Clone, Copy, Debug, PartialEq, Eq, Structural)]
pub enum Vpp {
    Unopened,
    Ready,
    Unavailable,
}

/// What it takes to use the post-processor.
#[derive(Clone, Copy, Debug, PartialEq, Eq, Structural)]
pub enum Access {
    /// It has to be opened first.
    Open,
    /// Nothing.
    Use,
}

impl Default for Vpp {
    fn default() -> (vpp: Self)
        ensures
            vpp == Vpp::Unopened,
    {
        Vpp::Unopened
    }
}

impl Vpp {
    /// Get the post-processor, or say that it has to be opened first. One that could
    /// not be opened is not there for any later frame either.
    pub fn get(self) -> (r: Result<Access, Error>)
        ensures
            match r {
                Ok(Access::Open) => self is Unopened,
                Ok(Access::Use) => self is Ready,
                Err(Error::Render { what }) => self is Unavailable && what@
                    == "no VA-API video post-processor on this host"@,
                Err(_) => false,
            },
    {
        match self {
            Vpp::Unopened => Ok(Access::Open),
            Vpp::Ready => Ok(Access::Use),
            Vpp::Unavailable => Err(
                Error::Render { what: "no VA-API video post-processor on this host".to_owned() },
            ),
        }
    }

    /// The post-processor once the attempt to open it has been answered.
    pub open spec fn tried(self, worked: bool) -> Vpp {
        if worked {
            Vpp::Ready
        } else {
            Vpp::Unavailable
        }
    }

    /// Remember how the attempt to open the post-processor went.
    pub fn opened(&mut self, worked: bool)
        requires
            *old(self) is Unopened,
        ensures
            *final(self) == old(self).tried(worked),
    {
        *self = if worked {
            Vpp::Ready
        } else {
            Vpp::Unavailable
        };
    }
}

/// What an import is in the middle of.
#[derive(Clone, Copy, Debug, PartialEq, Eq, Structural)]
pub enum Phase {
    Idle,
    Exporting,
    Duplicating,
    Adopting,
    Opening,
    Retiling,
    ExportingRetiled,
    AdoptingRetiled,
}

/// The import path's state between frames.
#[derive(Debug)]
pub struct Import {
    vpp: Vpp,
    vaapi: bool,
    format: DrmFormat,
    texture: Texture,
    size: Size,
    modifier: u64,
    planes: Vec<PlaneLayout>,
    /// Why the direct import failed, once it has.
    direct: Option<String>,
    phase: Phase,
}

/// What an [`Import`] keeps track of.
#[verifier::ext_equal]
pub struct ImportView {
    pub vpp: Vpp,
    pub vaapi: bool,
    pub format: DrmFormat,
    pub texture: Texture,
    pub size: Size,
    pub modifier: u64,
    pub planes: Seq<PlaneLayout>,
    pub direct: Option<Seq<char>>,
    pub phase: Phase,
}

impl ImportView {
    pub open spec fn at(self, phase: Phase) -> ImportView {
        ImportView { phase, ..self }
    }

    pub open spec fn fail(self, what: Seq<char>) -> (ImportView, Asked) {
        (self.at(Phase::Idle), Asked::Fail(what))
    }

    /// Begin to import a buffer.
    pub open spec fn import(self, gpu: Gpu, buffer: DmaBuf) -> (ImportView, Asked) {
        let idle = self.at(Phase::Idle);
        if !gpu.dma_buf || !gpu.vulkan {
            (idle, Asked::Skip)
        } else {
            match buffer.format.texture() {
                None => idle.fail(
                    "cannot import DMA-BUF format "@ + hex(buffer.format.raw as nat),
                ),
                Some(texture) => (
                    ImportView {
                        vpp: self.vpp,
                        vaapi: gpu.vaapi,
                        format: buffer.format,
                        texture,
                        size: buffer.size,
                        modifier: buffer.modifier,
                        planes: buffer.planes@,
                        direct: None,
                        phase: Phase::Exporting,
                    },
                    Asked::Export,
                ),
            }
        }
    }

    /// The one plane of the buffer, as the producer laid it out.
    pub open spec fn whole(self) -> Adoption {
        Adoption {
            texture: self.texture,
            size: self.size,
            modifier: self.modifier,
            stride: self.planes[0].stride,
            offset: self.planes[0].offset,
            leased: true,
        }
    }

    /// Try the buffer as it is.
    pub open spec fn adopt(self) -> (ImportView, Asked) {
        if self.planes.len() == 1 {
            (self.at(Phase::Adopting), Asked::Adopt(self.whole()))
        } else {
            self.refuse(
                "cannot import a "@ + decimal(self.planes.len())
                    + "-plane DMA-BUF as one Vulkan plane"@,
            )
        }
    }

    /// The buffer cannot be imported as it is: re-tile it, where that can be tried.
    pub open spec fn refuse(self, why: Seq<char>) -> (ImportView, Asked) {
        if !self.vaapi {
            self.fail(why)
        } else {
            ImportView { direct: Some(why), ..self }.retile()
        }
    }

    /// Re-tile the buffer, opening the post-processor the first time.
    pub open spec fn retile(self) -> (ImportView, Asked) {
        match (self.format.va(), self.vpp) {
            (None, _) => self.give_up(
                "no VA-API format for DMA-BUF format "@ + hex(self.format.raw as nat),
            ),
            (_, Vpp::Unopened) => (self.at(Phase::Opening), Asked::OpenProcessor),
            (Some(fourcc), Vpp::Ready) => (
                self.at(Phase::Retiling),
                Asked::Retile { fourcc },
            ),
            (_, Vpp::Unavailable) => self.give_up(
                "no VA-API video post-processor on this host"@,
            ),
        }
    }

    /// Neither way worked.
    pub open spec fn give_up(self, why: Seq<char>) -> (ImportView, Asked) {
        self.fail(self.direct->0 + ", and re-tiling it: "@ + why)
    }

    /// The re-tiled allocation is worth importing only as one plane.
    pub open spec fn retiled(self, objects: Seq<u64>, layers: Seq<Layer>) -> (ImportView, Asked) {
        if layers.len() == 0 {
            self.give_up("re-tiled surface has no layer"@)
        } else if layers[0].num_planes != 1 {
            self.give_up(
                "re-tile produced "@ + decimal(layers[0].num_planes as nat)
                    + " planes, which is no better than what it started from"@,
            )
        } else if objects.len() == 0 {
            self.give_up("re-tiled surface has no object"@)
        } else {
            (
                self.at(Phase::AdoptingRetiled),
                Asked::AdoptRetiled(
                    Adoption {
                        texture: self.texture,
                        size: self.size,
                        modifier: objects[0],
                        stride: layers[0].pitch,
                        offset: layers[0].offset,
                        leased: false,
                    },
                ),
            )
        }
    }

    /// What follows a reply.
    pub open spec fn step(self, told: Told) -> (ImportView, Asked) {
        match (self.phase, told) {
            (Phase::Exporting, Told::Done) => if self.vaapi {
                (self.at(Phase::Duplicating), Asked::Duplicate)
            } else {
                self.adopt()
            },
            (Phase::Exporting, Told::Failed(why)) => self.fail("export DMA-BUF: "@ + why),
            (Phase::Duplicating, Told::Done) => self.adopt(),
            (Phase::Duplicating, Told::Failed(why)) => self.fail("duplicate DMA-BUF: "@ + why),
            (Phase::Adopting, Told::Done) => (self.at(Phase::Idle), Asked::Imported),
            (Phase::Adopting, Told::Failed(why)) => self.refuse(
                "Vulkan DMA-BUF import: "@ + why,
            ),
            (Phase::Opening, Told::Done) => ImportView {
                vpp: self.vpp.tried(true),
                ..self
            }.retile(),
            (Phase::Opening, Told::Failed(_)) => ImportView {
                vpp: self.vpp.tried(false),
                ..self
            }.retile(),
            (Phase::Retiling, Told::Done) => (
                self.at(Phase::ExportingRetiled),
                Asked::ExportRetiled,
            ),
            (Phase::Retiling, Told::Failed(why)) => self.give_up("VA-API re-tile: "@ + why),
            (Phase::ExportingRetiled, Told::Retiled { objects, layers }) => self.retiled(
                objects,
                layers,
            ),
            (Phase::ExportingRetiled, Told::Failed(why)) => self.give_up(
                "export the re-tiled surface: "@ + why,
            ),
            (Phase::AdoptingRetiled, Told::Done) => (self.at(Phase::Idle), Asked::Imported),
            (Phase::AdoptingRetiled, Told::Failed(why)) => self.give_up(
                "Vulkan DMA-BUF import: "@ + why,
            ),
            _ => self.fail(Seq::empty()),
        }
    }

    /// Whether the reply answers what was asked.
    pub open spec fn expects(self, told: Told) -> bool {
        match told {
            Told::Failed(_) => !(self.phase is Idle),
            Told::Done => !(self.phase is Idle || self.phase is ExportingRetiled),
            Told::Retiled { .. } => self.phase is ExportingRetiled,
        }
    }

    pub open spec fn wf(self) -> bool {
        match self.phase {
            Phase::Opening | Phase::Retiling | Phase::ExportingRetiled | Phase::AdoptingRetiled => {
                &&& self.direct is Some
                &&& self.vaapi
                &&& self.phase is Opening ==> self.vpp is Unopened
                &&& !(self.phase is Opening) ==> self.vpp is Ready
            },
            _ => true,
        }
    }
}

fn prefixed(what: &str, why: &str) -> (text: String)
    ensures
        text@ == what@ + why@,
{
    let mut text = what.to_owned();
    text.append(why);
    text
}

fn counted(before: &str, count: u64, after: &str) -> (text: String)
    ensures
        text@ == before@ + decimal(count as nat) + after@,
{
    let mut text = before.to_owned();
    push_decimal(&mut text, count);
    text.append(after);
    text
}

impl Default for Import {
    fn default() -> (import: Self)
        ensures
            import@.vpp == Vpp::Unopened,
            import@.phase == Phase::Idle,
            import@.wf(),
    {
        Import {
            vpp: Vpp::default(),
            vaapi: false,
            format: DrmFormat { raw: 0 },
            texture: Texture::Bgra8Unorm,
            size: Size::new(0, 0),
            modifier: 0,
            planes: Vec::new(),
            direct: None,
            phase: Phase::Idle,
        }
    }
}

impl Import {
    pub closed spec fn view(&self) -> ImportView {
        ImportView {
            vpp: self.vpp,
            vaapi: self.vaapi,
            format: self.format,
            texture: self.texture,
            size: self.size,
            modifier: self.modifier,
            planes: self.planes@,
            direct: match self.direct {
                Some(why) => Some(why@),
                None => None,
            },
            phase: self.phase,
        }
    }

    fn move_to(&mut self, phase: Phase)
        ensures
            final(self)@ == old(self)@.at(phase),
    {
        self.phase = phase;
    }

    fn fail(&mut self, what: String) -> (action: Action)
        ensures
            (final(self)@, action@) == old(self)@.fail(what@),
    {
        self.move_to(Phase::Idle);
        Action::Fail(Error::Render { what })
    }

    /// Begin to alias one DMA-BUF allocation as a sampled texture.
    pub fn import(&mut self, gpu: Gpu, buffer: DmaBuf) -> (action: Action)
        ensures
            (final(self)@, action@) == old(self)@.import(gpu, buffer),
            final(self)@.wf(),
    {
        self.move_to(Phase::Idle);
        if !gpu.dma_buf || !gpu.vulkan {
            return Action::Skip;
        }
        let texture = match texture_format(buffer.format) {
            Ok(texture) => texture,
            Err(err) => { return Action::Fail(err); },
        };
        self.vaapi = gpu.vaapi;
        self.format = buffer.format;
        self.texture = texture;
        self.size = buffer.size;
        self.modifier = buffer.modifier;
        self.planes = buffer.planes;
        self.direct = None;
        self.move_to(Phase::Exporting);
        Action::Export
    }

    fn adopt(&mut self) -> (action: Action)
        ensures
            (final(self)@, action@) == old(self)@.adopt(),
    {
        let count = self.planes.len();
        assert(count == self@.planes.len());
        if count == 1 {
            let plane = self.planes[0];
            let adoption = Adoption {
                texture: self.texture,
                size: self.size,
                modifier: self.modifier,
                stride: plane.stride,
                offset: plane.offset,
                leased: true,
            };
            self.move_to(Phase::Adopting);
            Action::Adopt(adoption)
        } else {
            self.refuse(
                counted("cannot import a ", count as u64, "-plane DMA-BUF as one Vulkan plane"),
            )
        }
    }

    fn refuse(&mut self, why: String) -> (action: Action)
        ensures
            (final(self)@, action@) == old(self)@.refuse(why@),
    {
        if self.vaapi {
            self.direct = Some(why);
            self.retile()
        } else {
            self.fail(why)
        }
    }

    fn retile(&mut self) -> (action: Action)
        requires
            old(self)@.direct is Some,
        ensures
            (final(self)@, action@) == old(self)@.retile(),
    {
        let fourcc = match va_fourcc(self.format) {
            Ok(fourcc) => fourcc,
            Err(Error::Render { what }) => { return self.give_up(what); },
            Err(err) => { return Action::Fail(err); },
        };
        match self.vpp.get() {
            Ok(Access::Open) => {
                self.move_to(Phase::Opening);
                Action::OpenProcessor
            },
            Ok(Access::Use) => {
                self.move_to(Phase::Retiling);
                Action::Retile { fourcc }
            },
            Err(Error::Render { what }) => self.give_up(what),
            Err(err) => Action::Fail(err),
        }
    }

    fn give_up(&mut self, why: String) -> (action: Action)
        requires
            old(self)@.direct is Some,
        ensures
            (final(self)@, action@) == old(self)@.give_up(why@),
    {
        let mut what = match &self.direct {
            Some(direct) => direct.clone(),
            None => String::new(),
        };
        what.append(", and re-tiling it: ");
        what.append(why.as_str());
        self.fail(what)
    }

    fn retiled(&mut self, exported: Exported) -> (action: Action)
        requires
            old(self)@.direct is Some,
        ensures
            (final(self)@, action@) == old(self)@.retiled(exported.objects@, exported.layers@),
    {
        if exported.layers.len() == 0 {
            return self.give_up("re-tiled surface has no layer".to_owned());
        }
        let layer = exported.layers[0];
        if layer.num_planes != 1 {
            return self.give_up(
                counted(
                    "re-tile produced ",
                    layer.num_planes as u64,
                    " planes, which is no better than what it started from",
                ),
            );
        }
        if exported.objects.len() == 0 {
            return self.give_up("re-tiled surface has no object".to_owned());
        }
        let adoption = Adoption {
            texture: self.texture,
            size: self.size,
            modifier: exported.objects[0],
            stride: layer.pitch,
            offset: layer.offset,
            leased: false,
        };
        self.move_to(Phase::AdoptingRetiled);
        Action::AdoptRetiled(adoption)
    }

    /// Whether a reply answers what was asked.
    pub fn admits(&self, reply: &Reply) -> (admits: bool)
        ensures
            admits == self@.expects(reply@),
    {
        match reply {
            Reply::Failed(_) => self.phase != Phase::Idle,
            Reply::Done => self.phase != Phase::Idle && self.phase != Phase::ExportingRetiled,
            Reply::Retiled(_) => self.phase == Phase::ExportingRetiled,
        }
    }

    /// Take in what came of the last action, and say what to do next.
    pub fn step(&mut self, reply: Reply) -> (action: Action)
        requires
            old(self)@.wf(),
            old(self)@.expects(reply@),
        ensures
            (final(self)@, action@) == old(self)@.step(reply@),
            final(self)@.wf(),
    {
        match (self.phase, reply) {
            (Phase::Exporting, Reply::Done) => {
                if self.vaapi {
                    self.move_to(Phase::Duplicating);
                    Action::Duplicate
                } else {
                    self.adopt()
                }
            },
            (Phase::Exporting, Reply::Failed(why)) => self.fail(
                prefixed("export DMA-BUF: ", why.as_str()),
            ),
            (Phase::Duplicating, Reply::Done) => self.adopt(),
            (Phase::Duplicating, Reply::Failed(why)) => self.fail(
                prefixed("duplicate DMA-BUF: ", why.as_str()),
            ),
            (Phase::Adopting, Reply::Done) => {
                self.move_to(Phase::Idle);
                Action::Imported
            },
            (Phase::Adopting, Reply::Failed(why)) => self.refuse(
                prefixed("Vulkan DMA-BUF import: ", why.as_str()),
            ),
            (Phase::Opening, Reply::Done) => {
                self.vpp.opened(true);
                self.retile()
            },
            (Phase::Opening, Reply::Failed(_)) => {
                self.vpp.opened(false);
                self.retile()
            },
            (Phase::Retiling, Reply::Done) => {
                self.move_to(Phase::ExportingRetiled);
                Action::ExportRetiled
            },
            (Phase::Retiling, Reply::Failed(why)) => self.give_up(
                prefixed("VA-API re-tile: ", why.as_str()),
            ),
            (Phase::ExportingRetiled, Reply::Retiled(exported)) => self.retiled(exported),
            (Phase::ExportingRetiled, Reply::Failed(why)) => self.give_up(
                prefixed("export the re-tiled surface: ", why.as_str()),
            ),
            (Phase::AdoptingRetiled, Reply::Done) => {
                self.move_to(Phase::Idle);
                Action::Imported
            },
            (Phase::AdoptingRetiled, Reply::Failed(why)) => self.give_up(
                prefixed("Vulkan DMA-BUF import: ", why.as_str()),
            ),
            _ => self.fail(String::new()),
        }
    }
}

/// Something that happens to the import path.
pub enum Turn {
    /// A frame comes along.
    Import(Gpu, DmaBuf),
    /// The last action is answered.
    Reply(Told),
}

impl ImportView {
    pub open spec fn allows(self, turn: Turn) -> bool {
        match turn {
            Turn::Import(_, _) => self.phase is Idle,
            Turn::Reply(told) => self.expects(told),
        }
    }

    pub open spec fn turn(self, turn: Turn) -> (ImportView, Asked) {
        match turn {
            Turn::Import(gpu, buffer) => self.import(gpu, buffer),
            Turn::Reply(told) => self.step(told),
        }
    }
}

/// The import path after a run of turns.
pub open spec fn run(start: ImportView, turns: Seq<Turn>) -> ImportView
    decreases turns.len(),
{
    if turns.len() == 0 {
        start
    } else {
        run(start, turns.drop_last()).turn(turns.last()).0
    }
}

pub open spec fn allowed(start: ImportView, turns: Seq<Turn>) -> bool
    decreases turns.len(),
{
    turns.len() > 0 ==> {
        &&& allowed(start, turns.drop_last())
        &&& run(start, turns.drop_last()).allows(turns.last())
    }
}

/// How often the post-processor is opened over a run of turns.
pub open spec fn openings(start: ImportView, turns: Seq<Turn>) -> nat
    decreases turns.len(),
{
    if turns.len() == 0 {
        0
    } else {
        let before = openings(start, turns.drop_last());
        if run(start, turns.drop_last()).turn(turns.last()).1 is OpenProcessor {
            before + 1
        } else {
            before
        }
    }
}

/// The post-processor is opened by the first frame that needs it and by no other,
/// however many frames need it: over a whole run it is opened once if it was needed
/// at all, and never if not.
pub proof fn law_the_processor_is_opened_once(start: ImportView, turns: Seq<Turn>)
    requires
        start.vpp is Unopened,
        start.phase is Idle,
        allowed(start, turns),
    ensures
        openings(start, turns) == if run(start, turns).vpp is Unopened && !(run(
            start,
            turns,
        ).phase is Opening) {
            0nat
        } else {
            1
        },
        run(start, turns).wf(),
    decreases turns.len(),
{
    if turns.len() > 0 {
        law_the_processor_is_opened_once(start, turns.drop_last());
    }
}

/// What opening the post-processor came to stands for every later frame: one that
/// opened is used by each that needs it, one that did not is used by none, and
/// neither is opened again.
pub proof fn law_the_attempt_to_open_stands(start: ImportView, turns: Seq<Turn>, turn: Turn)
    requires
        start.wf(),
        !(start.vpp is Unopened),
        allowed(start, turns),
        run(start, turns).allows(turn),
    ensures
        run(start, turns).vpp == start.vpp,
        !(run(start, turns).turn(turn).1 is OpenProcessor),
        run(start, turns).turn(turn).1 is Retile ==> start.vpp is Ready,
        openings(start, turns) == 0,
        ({
            let (import, asked) = (run(start, turns), run(start, turns).turn(turn).1);
            match (import.phase, turn, import.format.va()) {
                (Phase::Adopting, Turn::Reply(Told::Failed(why)), Some(fourcc)) if import.vaapi => {
                    if start.vpp is Ready {
                        asked == (Asked::Retile { fourcc })
                    } else {
                        asked == Asked::Fail(
                            "Vulkan DMA-BUF import: "@ + why + ", and re-tiling it: "@
                                + "no VA-API video post-processor on this host"@,
                        )
                    }
                },
                _ => true,
            }
        }),
    decreases turns.len(),
{
    if turns.len() > 0 {
        law_the_attempt_to_open_stands(start, turns.drop_last(), turns.last());
    }
}

/// A buffer is re-tiled only once it could not be taken as it is, and only where a
/// post-processor may be tried. A buffer taken as it is keeps the producer's own
/// layout and lease.
pub proof fn law_the_direct_import_comes_first(import: ImportView, told: Told)
    requires
        import.wf(),
        import.expects(told),
    ensures
        match import.step(told).1 {
            Asked::OpenProcessor | Asked::Retile { .. } => {
                &&& import.step(told).0.direct is Some
                &&& import.vaapi
            },
            Asked::Adopt(adoption) => {
                &&& import.planes.len() == 1
                &&& adoption == import.whole()
            },
            _ => true,
        },
{
}

/// The formats that can be sampled are the packed ones of eight bits a channel, with alpha
/// or padding on top and red or blue next, and no others. A texture has the channel that is
/// first in memory first: blue below red, and red below blue.
pub proof fn law_what_can_be_sampled(format: DrmFormat)
    ensures
        ({
            let (name, texture) = (letters(format.raw), format.texture());
            let packed = name[2] == 50 && name[3] == 52 && (name[0] == 88 || name[0] == 65);
            &&& packed && name[1] == 82 ==> texture == Some(Texture::Bgra8Unorm)
            &&& packed && name[1] == 66 ==> texture == Some(Texture::Rgba8Unorm)
            &&& !packed || (name[1] != 82 && name[1] != 66) ==> texture is None
        }),
        format.va() matches Some(fourcc) ==> {
            &&& letters(fourcc)[0] == if format.texture() == Some(Texture::Bgra8Unorm) {
                66u8
            } else {
                82
            }
            &&& letters(fourcc)[1] == 71
            &&& letters(fourcc)[2] == if letters(fourcc)[0] == 66 {
                82u8
            } else {
                66
            }
            &&& letters(fourcc)[3] == letters(format.raw)[0]
        },
        format.va() is Some <==> format.texture() is Some,
{
    law_a_code_is_its_letters(format.raw);
}

/// A buffer takes another route exactly when the device cannot import it. Otherwise it is
/// exported, if it is in a format that can be sampled, and what the producer said of it is
/// what is gone by.
pub proof fn law_how_an_import_begins(import: ImportView, gpu: Gpu, buffer: DmaBuf)
    ensures
        ({
            let (next, asked) = import.import(gpu, buffer);
            &&& next.vpp == import.vpp
            &&& !gpu.dma_buf || !gpu.vulkan <==> asked is Skip
            &&& gpu.dma_buf && gpu.vulkan && buffer.format.texture() is None ==> asked is Fail
            &&& gpu.dma_buf && gpu.vulkan ==> {
                &&& buffer.format.texture() matches Some(texture) ==> {
                    &&& asked is Export
                    &&& next.phase is Exporting
                    &&& next.texture == texture
                    &&& next.format == buffer.format
                    &&& next.size == buffer.size
                    &&& next.modifier == buffer.modifier
                    &&& next.planes == buffer.planes@
                    &&& next.vaapi == gpu.vaapi
                    &&& next.direct is None
                }
            }
        }),
{
}

/// Whether the buffer goes on to be re-tiled, where that may be tried at all: by the
/// post-processor, opened first if it never was, and not at all by one that could not be.
pub open spec fn turns_to_retiling(import: ImportView, next: ImportView, asked: Asked) -> bool {
    if !import.vaapi {
        asked is Fail && next.phase is Idle
    } else {
        &&& next.vpp == import.vpp
        &&& import.format.va() is None ==> asked is Fail
        &&& import.format.va() matches Some(fourcc) ==> match import.vpp {
            Vpp::Unopened => asked is OpenProcessor && next.phase is Opening,
            Vpp::Ready => asked == (Asked::Retile { fourcc }) && next.phase is Retiling,
            Vpp::Unavailable => asked is Fail,
        }
    }
}

/// Whether what is known of the buffer is the same.
pub open spec fn same_buffer(a: ImportView, b: ImportView) -> bool {
    &&& a.format == b.format
    &&& a.texture == b.texture
    &&& a.size == b.size
    &&& a.modifier == b.modifier
    &&& a.planes == b.planes
    &&& a.vaapi == b.vaapi
}

/// A buffer that was exported is handed to the device as it is, exactly when it is one
/// plane: where the producer put it, as large as it said, with its modifier and its lease.
/// A second descriptor is kept first where re-tiling may be tried. Any other buffer turns
/// to re-tiling, and so does one the device will not take. One it takes is imported.
pub proof fn law_a_buffer_is_taken_as_it_is(import: ImportView, why: Seq<char>)
    ensures
        ({
            let (next, asked) = import.step(Told::Done);
            let (failed, failed_asked) = import.step(Told::Failed(why));
            &&& same_buffer(next, import)
            &&& same_buffer(failed, import)
            &&& import.phase is Exporting && import.vaapi ==> asked is Duplicate && next.phase
                is Duplicating
            &&& import.phase is Duplicating || import.phase is Exporting && !import.vaapi ==> {
                if import.planes.len() == 1 {
                    &&& next.phase is Adopting
                    &&& asked == Asked::Adopt(
                        Adoption {
                            texture: import.texture,
                            size: import.size,
                            modifier: import.modifier,
                            stride: import.planes[0].stride,
                            offset: import.planes[0].offset,
                            leased: true,
                        },
                    )
                } else {
                    turns_to_retiling(import, next, asked)
                }
            }
            &&& import.phase is Exporting || import.phase is Duplicating ==> failed_asked is Fail
            &&& import.phase is Adopting ==> {
                &&& asked is Imported
                &&& turns_to_retiling(import, failed, failed_asked)
            }
        }),
{
}

/// Re-tiling uses a post-processor that opened and gives up on one that did not. What it
/// made is exported and handed to the device if it is one plane of one object: where the
/// post-processor put it, with its modifier, and under no lease. Anything short of that is
/// the end of it.
pub proof fn law_a_retiled_buffer_is_taken(
    import: ImportView,
    why: Seq<char>,
    objects: Seq<u64>,
    layers: Seq<Layer>,
)
    requires
        import.wf(),
    ensures
        import.phase is Opening ==> {
            let (next, asked) = import.step(Told::Done);
            let (failed, failed_asked) = import.step(Told::Failed(why));
            &&& next.vpp is Ready
            &&& import.format.va() matches Some(fourcc) ==> asked == (Asked::Retile { fourcc })
            &&& failed.vpp is Unavailable
            &&& failed_asked is Fail
        },
        import.phase is Retiling ==> {
            &&& import.step(Told::Done).1 is ExportRetiled
            &&& import.step(Told::Done).0.phase is ExportingRetiled
            &&& import.step(Told::Failed(why)).1 is Fail
        },
        import.phase is ExportingRetiled ==> {
            let (next, asked) = import.step(Told::Retiled { objects, layers });
            &&& import.step(Told::Failed(why)).1 is Fail
            &&& if layers.len() > 0 && objects.len() > 0 && layers[0].num_planes == 1 {
                &&& next.phase is AdoptingRetiled
                &&& asked == Asked::AdoptRetiled(
                    Adoption {
                        texture: import.texture,
                        size: import.size,
                        modifier: objects[0],
                        stride: layers[0].pitch,
                        offset: layers[0].offset,
                        leased: false,
                    },
                )
            } else {
                asked is Fail
            }
        },
        import.phase is AdoptingRetiled ==> {
            &&& import.step(Told::Done).1 is Imported
            &&& import.step(Told::Failed(why)).1 is Fail
        },
{
}

/// An import that fails after re-tiling was tried says why the buffer could not be taken as
/// it was and then why it could not be re-tiled.
pub proof fn law_a_failed_import_says_why(
    import: ImportView,
    told: Told,
    what: Seq<char>,
    direct: Seq<char>,
)
    requires
        import.expects(told),
        import.phase is Opening || import.phase is Retiling || import.phase is ExportingRetiled
            || import.phase is AdoptingRetiled,
        import.direct == Some(direct),
        import.step(told).1 == Asked::Fail(what),
    ensures
        ({
            let (start, joint) = (direct.len() as int, ", and re-tiling it: "@);
            let end = start + joint.len();
            &&& what.len() >= end
            &&& what.subrange(0, start) == direct
            &&& what.subrange(start, end) == joint
        }),
{
    let (start, joint) = (direct.len() as int, ", and re-tiling it: "@);
    assert(what.subrange(0, start) =~= direct);
    assert(what.subrange(start, start + joint.len()) =~= joint);
}

/// An import takes every answer to what it asked.
pub proof fn law_every_answer_is_taken(import: ImportView, why: Seq<char>, told: Told)
    ensures
        !(import.phase is Idle) ==> import.expects(Told::Failed(why)),
        !(import.phase is Idle) && !(import.phase is ExportingRetiled) ==> import.expects(
            Told::Done,
        ),
        import.phase is ExportingRetiled ==> told is Retiled ==> import.expects(told),
{
}

/// No reason is lost: whatever failed is said, now or once re-tiling has failed too. A
/// post-processor that would not open is the exception, since it is remembered as not
/// there.
pub proof fn law_the_reason_is_said(import: ImportView, why: Seq<char>)
    requires
        import.wf(),
        !(import.phase is Idle),
        !(import.phase is Opening),
    ensures
        match import.step(Told::Failed(why)).1 {
            Asked::Fail(what) => says(what, why),
            _ => {
                &&& import.step(Told::Failed(why)).0.direct matches Some(direct)
                &&& says(direct, why)
            },
        },
{
    let joint = ", and re-tiling it: "@;
    let vulkan = "Vulkan DMA-BUF import: "@;
    lemma_says(vulkan, why, Seq::empty());
    if import.phase is Exporting {
        lemma_says("export DMA-BUF: "@, why, Seq::empty());
    } else if import.phase is Duplicating {
        lemma_says("duplicate DMA-BUF: "@, why, Seq::empty());
    } else if import.phase is Adopting {
        lemma_says_more(vulkan + why, why, joint);
        lemma_says_more(
            vulkan + why + joint,
            why,
            "no VA-API format for DMA-BUF format "@ + hex(import.format.raw as nat),
        );
        lemma_says_more(
            vulkan + why + joint,
            why,
            "no VA-API video post-processor on this host"@,
        );
    } else if import.phase is Retiling {
        lemma_says("VA-API re-tile: "@, why, Seq::empty());
        lemma_says_more("VA-API re-tile: "@ + why, why, import.direct->0 + joint);
    } else if import.phase is ExportingRetiled {
        lemma_says("export the re-tiled surface: "@, why, Seq::empty());
        lemma_says_more("export the re-tiled surface: "@ + why, why, import.direct->0 + joint);
    } else {
        lemma_says_more(vulkan + why, why, import.direct->0 + joint);
    }
}

/// An import takes nothing but an answer to what it asked, and nothing between frames.
pub proof fn law_only_an_answer_is_taken(import: ImportView, told: Told)
    requires
        import.expects(told),
    ensures
        !(import.phase is Idle),
        told is Retiled ==> import.phase is ExportingRetiled,
        told is Done ==> !(import.phase is ExportingRetiled),
{
}

} // verus!

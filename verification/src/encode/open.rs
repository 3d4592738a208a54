//! Setting an encoder up: controls, formats, and buffers, in the order drivers
//! need them.
//!
//! Two things the driver will not do by itself:
//!   1. `bcm2835-codec` defaults to H.264 level 1.0, which is 128x96. The level
//!      has to be set from the resolution before `VIDIOC_S_FMT` or the encoder
//!      refuses anything larger, and no ioctl reports the default, so there is
//!      nothing to detect and the level is always set.
//!   2. Repeated parameter sets have two controls and drivers implement one
//!      each: `bcm2835-codec` has `REPEAT_SEQ_HEADER` and not
//!      `PREPEND_SPSPPS_TO_IDR`. Both are asked for and whichever lands wins,
//!      because a subscriber joining at a later keyframe can only start if that
//!      keyframe carries SPS/PPS.

use vstd::prelude::*;

use super::params::{
    bitrate_control, coded_bytes_for, coded_size, h264_level, level_for,
};
use super::v4l2::{EncoderView, V4l2};
use crate::error::Error;
use crate::frame::{Color, Size};
use crate::v4l2::format::{Dir, Format, Request, MAX_PLANES};
use crate::v4l2::fourcc::{H264, NV12};
use crate::v4l2::planes::{laid_out, layout, Planes};
use crate::v4l2::queue::{AllocStep, Allocation, AllocationView, Queue, QueueView};

verus! {

/// Raw frames the driver may hold at once. Enough to keep the hardware fed while
/// the caller converts the next frame, and no more: every buffer is a full
/// picture of memory on a board that has little.
pub const RAW_BUFFERS: u32 = 4;

/// Coded buffers. More than [`RAW_BUFFERS`] so a run of large access units never
/// leaves the encoder with nowhere to write.
pub const CODED_BUFFERS: u32 = 8;

/// `V4L2_CID_MPEG_VIDEO_GOP_SIZE`.
pub const GOP_SIZE: u32 = 0x0099_09cb;

/// `V4L2_CID_MPEG_VIDEO_BITRATE_MODE`.
pub const BITRATE_MODE: u32 = 0x0099_09ce;

/// `V4L2_MPEG_VIDEO_BITRATE_MODE_CBR`.
pub const BITRATE_MODE_CBR: i32 = 1;

/// `V4L2_CID_MPEG_VIDEO_BITRATE`.
pub const BITRATE: u32 = 0x0099_09cf;

/// `V4L2_CID_MPEG_VIDEO_HEADER_MODE`.
pub const HEADER_MODE: u32 = 0x0099_09d8;

/// `V4L2_MPEG_VIDEO_HEADER_MODE_JOINED_WITH_1ST_FRAME`.
pub const HEADER_MODE_JOINED: i32 = 1;

/// `V4L2_CID_MPEG_VIDEO_REPEAT_SEQ_HEADER`.
pub const REPEAT_SEQ_HEADER: u32 = 0x0099_09e2;

/// `V4L2_CID_MPEG_VIDEO_FORCE_KEY_FRAME`.
pub const FORCE_KEY_FRAME: u32 = 0x0099_09e5;

/// `V4L2_CID_MPEG_VIDEO_H264_LEVEL`.
pub const H264_LEVEL: u32 = 0x0099_0a67;

/// `V4L2_CID_MPEG_VIDEO_H264_PROFILE`.
pub const H264_PROFILE: u32 = 0x0099_0a6b;

/// `V4L2_MPEG_VIDEO_H264_PROFILE_CONSTRAINED_BASELINE`.
pub const PROFILE_CONSTRAINED_BASELINE: i32 = 1;

/// `V4L2_CID_MPEG_VIDEO_PREPEND_SPSPPS_TO_IDR`.
pub const PREPEND_SPSPPS_TO_IDR: u32 = 0x0099_0b84;

/// What to encode, and how.
#[derive(Clone, Copy, Debug, PartialEq, Eq, Structural)]
pub struct Config {
    pub size: Size,
    /// Frames from one keyframe to the next.
    pub gop: u32,
    /// Bits per second.
    pub bitrate: u64,
    /// Frames per second.
    pub framerate: u32,
    pub color: Color,
}

/// What to do next.
#[derive(Clone, Debug, PartialEq, Eq)]
pub enum Action {
    /// Set a codec control.
    SetControl { id: u32, value: i32 },
    /// Negotiate a queue's format.
    SetFormat { dir: Dir, request: Request },
    /// Declare the framerate of the raw queue.
    SetFramerate { framerate: u32 },
    /// Ask the driver for a queue's buffers.
    RequestBuffers { dir: Dir, count: u32 },
    /// Map what was granted, one plane at a time.
    Allocate { dir: Dir, step: AllocStep },
    /// Nothing: the encoder is set up, and [`Opening::finish`] has it.
    Ready,
    /// Nothing: the driver cannot encode this.
    Fail(Error),
}

/// What came of an [`Action`].
#[derive(Debug)]
pub enum Reply {
    /// It was done.
    Done,
    /// It failed.
    Refused,
    /// The format the driver settled on.
    Negotiated(Format),
    /// How many buffers the driver granted.
    Granted(u32),
    /// How many bytes of a plane were mapped.
    Mapped(u32),
}

/// What comes next.
#[derive(Clone, Copy, Debug, PartialEq, Eq, Structural)]
pub enum Stage {
    Profile,
    Level,
    Gop,
    Bitrate,
    BitrateMode,
    HeaderMode,
    Repeat,
    Prepend,
    CodedFormat,
    RawFormat,
    Framerate,
    RequestRaw,
    MapRaw,
    RequestCoded,
    MapCoded,
    Ready,
    Failed,
}

/// An encoder being set up.
#[derive(Debug)]
pub struct Opening {
    config: Config,
    stage: Stage,
    /// Whether the driver repeats the parameter sets. A subscriber joining at any
    /// keyframe needs SPS/PPS in band ahead of it, so without this the track is
    /// only joinable at its first keyframe.
    repeats: bool,
    coded_format: Option<Format>,
    raw_format: Option<Format>,
    planes: Option<Planes>,
    allocation: Option<Allocation>,
    raw: Option<Queue>,
    coded: Option<Queue>,
}

/// How far an [`Opening`] has come.
#[verifier::ext_equal]
pub struct OpeningView {
    pub config: Config,
    pub stage: Stage,
    pub repeats: bool,
    pub coded_format: Option<Format>,
    pub raw_format: Option<Format>,
    pub planes: Option<Planes>,
    pub allocation: Option<AllocationView>,
    pub raw: Option<QueueView>,
    pub coded: Option<QueueView>,
}

impl OpeningView {
    /// An encoder about to be set up.
    pub open spec fn start(config: Config) -> OpeningView {
        OpeningView {
            config,
            stage: Stage::Profile,
            repeats: false,
            coded_format: None,
            raw_format: None,
            planes: None,
            allocation: None,
            raw: None,
            coded: None,
        }
    }

    pub open spec fn at(self, stage: Stage) -> OpeningView {
        OpeningView { stage, ..self }
    }

    /// What to ask the coded queue for.
    pub open spec fn coded_request(self) -> Request {
        Request {
            pixelformat: H264,
            size: self.config.size,
            sizeimage: Some(coded_bytes_for(self.config.size) as u32),
            color: None,
        }
    }

    /// What to ask the raw queue for.
    pub open spec fn raw_request(self) -> Request {
        Request {
            pixelformat: NV12,
            size: self.config.size,
            sizeimage: None,
            color: Some(self.config.color),
        }
    }

    /// What to do at this stage.
    pub open spec fn asks(self) -> Action {
        match self.stage {
            Stage::Profile => Action::SetControl {
                id: H264_PROFILE,
                value: PROFILE_CONSTRAINED_BASELINE,
            },
            Stage::Level => Action::SetControl {
                id: H264_LEVEL,
                value: level_for(self.config.size),
            },
            Stage::Gop => Action::SetControl { id: GOP_SIZE, value: self.config.gop as i32 },
            Stage::Bitrate => Action::SetControl {
                id: BITRATE,
                value: if self.config.bitrate < i32::MAX {
                    self.config.bitrate as i32
                } else {
                    i32::MAX
                },
            },
            Stage::BitrateMode => Action::SetControl { id: BITRATE_MODE, value: BITRATE_MODE_CBR },
            Stage::HeaderMode => Action::SetControl { id: HEADER_MODE, value: HEADER_MODE_JOINED },
            Stage::Repeat => Action::SetControl { id: REPEAT_SEQ_HEADER, value: 1 },
            Stage::Prepend => Action::SetControl { id: PREPEND_SPSPPS_TO_IDR, value: 1 },
            Stage::CodedFormat => Action::SetFormat {
                dir: Dir::Capture,
                request: self.coded_request(),
            },
            Stage::RawFormat => Action::SetFormat {
                dir: Dir::Output,
                request: self.raw_request(),
            },
            Stage::Framerate => Action::SetFramerate { framerate: self.config.framerate },
            Stage::RequestRaw => Action::RequestBuffers { dir: Dir::Output, count: RAW_BUFFERS },
            Stage::MapRaw => Action::Allocate {
                dir: Dir::Output,
                step: self.allocation->0.next(),
            },
            Stage::RequestCoded => Action::RequestBuffers {
                dir: Dir::Capture,
                count: CODED_BUFFERS,
            },
            Stage::MapCoded => Action::Allocate {
                dir: Dir::Capture,
                step: self.allocation->0.next(),
            },
            Stage::Ready => Action::Ready,
            Stage::Failed => Action::Fail(Error::Refused),
        }
    }

    /// Go on to a stage.
    pub open spec fn go(self, stage: Stage) -> (OpeningView, Action) {
        (self.at(stage), self.at(stage).asks())
    }

    /// Give up.
    pub open spec fn fail(self, err: Error) -> (OpeningView, Action) {
        (self.at(Stage::Failed), Action::Fail(err))
    }

    /// Begin to map the buffers granted for a queue.
    pub open spec fn allocate(self, dir: Dir, format: Format, count: u32, map: Stage) -> (
        OpeningView,
        Action,
    ) {
        if count == 0 {
            self.fail(Error::NoBuffers)
        } else {
            OpeningView {
                allocation: Some(
                    AllocationView { dir, format, count, done: Seq::empty(), current: None },
                ),
                ..self
            }.go(map)
        }
    }

    /// The allocation in progress once the step it asked for is done.
    pub open spec fn stepped(self, reply: Reply) -> AllocationView {
        match reply {
            Reply::Mapped(length) => self.allocation->0.mapped(length),
            _ => self.allocation->0.queried(),
        }
    }

    /// A queue's buffers once another step of mapping them is done.
    pub open spec fn map(self, reply: Reply) -> (OpeningView, Action) {
        let allocation = self.stepped(reply);
        let rest = OpeningView { allocation: None, ..self };
        if !(allocation.next() is Done) {
            OpeningView { allocation: Some(allocation), ..self }.go(self.stage)
        } else if self.stage is MapRaw {
            OpeningView { raw: Some(allocation.finished()), ..rest }.go(Stage::RequestCoded)
        } else {
            OpeningView { coded: Some(allocation.finished()), ..rest }.go(Stage::Ready)
        }
    }

    /// Where setting up goes after a reply. The profile, level, GOP, and bitrate
    /// have to land, and so do the formats and the buffers; the rest is worth
    /// asking for and not worth failing over.
    pub open spec fn step(self, reply: Reply) -> (OpeningView, Action) {
        match (self.stage, reply) {
            (Stage::Profile, Reply::Done) => self.go(Stage::Level),
            (Stage::Level, Reply::Done) => self.go(Stage::Gop),
            (Stage::Gop, Reply::Done) => self.go(Stage::Bitrate),
            (Stage::Bitrate, Reply::Done) => self.go(Stage::BitrateMode),
            (Stage::BitrateMode, _) => self.go(Stage::HeaderMode),
            (Stage::HeaderMode, _) => self.go(Stage::Repeat),
            (Stage::Repeat, _) => OpeningView { repeats: reply is Done, ..self }.go(Stage::Prepend),
            (Stage::Prepend, _) => OpeningView {
                repeats: self.repeats || reply is Done,
                ..self
            }.go(Stage::CodedFormat),
            (Stage::CodedFormat, Reply::Negotiated(format)) => if format.pixelformat != H264 {
                self.fail(Error::EncoderFormat { pixelformat: format.pixelformat })
            } else {
                OpeningView { coded_format: Some(format), ..self }.go(Stage::RawFormat)
            },
            (Stage::RawFormat, Reply::Negotiated(format)) => OpeningView {
                raw_format: Some(format),
                ..self
            }.go(Stage::Framerate),
            (Stage::Framerate, _) => match layout(&self.raw_format->0, self.config.size) {
                Ok(planes) => OpeningView { planes: Some(planes), ..self }.go(Stage::RequestRaw),
                Err(err) => self.fail(err),
            },
            (Stage::RequestRaw, Reply::Granted(count)) => OpeningView {
                raw_format: None,
                ..self
            }.allocate(Dir::Output, self.raw_format->0, count, Stage::MapRaw),
            (Stage::RequestCoded, Reply::Granted(count)) => OpeningView {
                coded_format: None,
                ..self
            }.allocate(Dir::Capture, self.coded_format->0, count, Stage::MapCoded),
            (Stage::MapRaw | Stage::MapCoded, Reply::Done | Reply::Mapped(_)) => self.map(reply),
            _ => self.fail(Error::Refused),
        }
    }

    /// Whether the reply answers what was asked. A format has as many planes as a
    /// driver's answer is believed for, and its layout has to be one this machine
    /// can count to.
    pub open spec fn expects(self, reply: Reply) -> bool {
        match reply {
            Reply::Refused => !(self.stage is Ready || self.stage is Failed),
            Reply::Done => match self.asks() {
                Action::SetControl { .. } | Action::SetFramerate { .. } => true,
                Action::Allocate { step, .. } => step is Query,
                _ => false,
            },
            Reply::Negotiated(format) => {
                &&& self.stage is CodedFormat || self.stage is RawFormat
                &&& 1 <= format.planes@.len() <= MAX_PLANES
                &&& self.stage is RawFormat ==> format.countable(self.config.size)
            },
            Reply::Granted(_) => self.stage is RequestRaw || self.stage is RequestCoded,
            Reply::Mapped(_) => self.asks() matches Action::Allocate { step, .. } && step is MapPlane,
        }
    }

    /// How far along the stages are, the first being zero.
    pub open spec fn rank(self) -> int {
        match self.stage {
            Stage::Profile => 0,
            Stage::Level => 1,
            Stage::Gop => 2,
            Stage::Bitrate => 3,
            Stage::BitrateMode => 4,
            Stage::HeaderMode => 5,
            Stage::Repeat => 6,
            Stage::Prepend => 7,
            Stage::CodedFormat => 8,
            Stage::RawFormat => 9,
            Stage::Framerate => 10,
            Stage::RequestRaw => 11,
            Stage::MapRaw => 12,
            Stage::RequestCoded => 13,
            Stage::MapCoded => 14,
            Stage::Ready => 15,
            Stage::Failed => 16,
        }
    }

    /// The layout is the one a raw format calls for.
    pub open spec fn lays_out(self, format: Format) -> bool {
        self.planes matches Some(planes) && laid_out(format, self.config.size, planes)
    }

    pub open spec fn wf(self) -> bool {
        let rank = self.rank();
        &&& self.config.size.valid()
        &&& 9 <= rank <= 13 ==> {
            &&& self.coded_format matches Some(format)
            &&& format.pixelformat == H264
            &&& 1 <= format.planes@.len() <= MAX_PLANES
        }
        &&& 10 <= rank <= 11 ==> {
            &&& self.raw_format matches Some(format)
            &&& 1 <= format.planes@.len() <= MAX_PLANES
            &&& format.countable(self.config.size)
        }
        &&& rank == 11 ==> self.lays_out(self.raw_format->0)
        &&& rank == 12 ==> self.lays_out(self.allocation->0.format)
        &&& 13 <= rank <= 15 ==> self.lays_out(self.raw->0.format)
        &&& rank == 12 || rank == 14 ==> {
            &&& self.allocation matches Some(allocation)
            &&& allocation.wf()
            &&& !(allocation.next() is Done)
            &&& allocation.dir == if rank == 12 {
                Dir::Output
            } else {
                Dir::Capture
            }
        }
        &&& 13 <= rank <= 15 ==> {
            &&& self.raw matches Some(raw)
            &&& raw.wf()
            &&& raw.dir == Dir::Output
        }
        &&& rank == 15 ==> {
            &&& self.coded matches Some(coded)
            &&& coded.wf()
            &&& coded.dir == Dir::Capture
        }
    }
}

impl Opening {
    pub closed spec fn view(&self) -> OpeningView {
        OpeningView {
            config: self.config,
            stage: self.stage,
            repeats: self.repeats,
            coded_format: self.coded_format,
            raw_format: self.raw_format,
            planes: self.planes,
            allocation: match self.allocation {
                Some(allocation) => Some(allocation@),
                None => None,
            },
            raw: match self.raw {
                Some(raw) => Some(raw@),
                None => None,
            },
            coded: match self.coded {
                Some(coded) => Some(coded@),
                None => None,
            },
        }
    }

    /// Begin to set up an encoder for a picture size that 4:2:0 can represent.
    pub fn open(config: Config) -> (r: Result<(Opening, Action), Error>)
        ensures
            match r {
                Ok((opening, action)) => {
                    &&& config.size.valid()
                    &&& opening@ == OpeningView::start(config)
                    &&& action == opening@.asks()
                    &&& opening@.wf()
                },
                Err(err) => !config.size.valid() && err == (Error::InvalidSize {
                    size: config.size,
                }),
            },
    {
        match config.size.validate() {
            Err(err) => Err(err),
            Ok(()) => {
                let opening = Opening {
                    config,
                    stage: Stage::Profile,
                    repeats: false,
                    coded_format: None,
                    raw_format: None,
                    planes: None,
                    allocation: None,
                    raw: None,
                    coded: None,
                };
                let action = opening.asks();
                Ok((opening, action))
            },
        }
    }

    /// Whether the driver repeats the parameter sets, once it has been asked both
    /// ways. A caller warns when it does not.
    pub fn repeats(&self) -> (repeats: bool)
        ensures
            repeats == self@.repeats,
    {
        self.repeats
    }

    fn asks(&self) -> (action: Action)
        requires
            self@.wf(),
        ensures
            action == self@.asks(),
    {
        let size = self.config.size;
        match self.stage {
            // Before `VIDIOC_S_FMT`: bcm2835-codec picks its encoder configuration from
            // the profile and level at format time, and a level set afterwards does not
            // take.
            Stage::Profile => Action::SetControl {
                id: H264_PROFILE,
                value: PROFILE_CONSTRAINED_BASELINE,
            },
            Stage::Level => Action::SetControl { id: H264_LEVEL, value: h264_level(size) },
            Stage::Gop => Action::SetControl { id: GOP_SIZE, value: self.config.gop as i32 },
            Stage::Bitrate => Action::SetControl {
                id: BITRATE,
                value: bitrate_control(self.config.bitrate),
            },
            // Constant rate is what a live uplink wants: the congestion controller already
            // owns the rate, and a variable-rate encoder would spend its budget on the
            // wrong frames.
            Stage::BitrateMode => Action::SetControl { id: BITRATE_MODE, value: BITRATE_MODE_CBR },
            // The parameter sets belong in the first access unit rather than on a coded
            // buffer of their own.
            Stage::HeaderMode => Action::SetControl { id: HEADER_MODE, value: HEADER_MODE_JOINED },
            Stage::Repeat => Action::SetControl { id: REPEAT_SEQ_HEADER, value: 1 },
            Stage::Prepend => Action::SetControl { id: PREPEND_SPSPPS_TO_IDR, value: 1 },
            // Coded first, raw second: an encoder derives a new OUTPUT format from the
            // CAPTURE format it is given, so a raw format negotiated first is one the
            // driver is free to have replaced by the time its stride is read.
            Stage::CodedFormat => Action::SetFormat {
                dir: Dir::Capture,
                request: Request {
                    pixelformat: H264,
                    size,
                    sizeimage: Some(coded_size(size)),
                    color: None,
                },
            },
            Stage::RawFormat => Action::SetFormat {
                dir: Dir::Output,
                request: Request {
                    pixelformat: NV12,
                    size,
                    sizeimage: None,
                    color: Some(self.config.color),
                },
            },
            // Rate control spends the bitrate per unit of time, so it needs to know how
            // much time a frame is. A driver without the ioctl assumes 30.
            Stage::Framerate => Action::SetFramerate { framerate: self.config.framerate },
            Stage::RequestRaw => Action::RequestBuffers { dir: Dir::Output, count: RAW_BUFFERS },
            Stage::RequestCoded => Action::RequestBuffers {
                dir: Dir::Capture,
                count: CODED_BUFFERS,
            },
            Stage::MapRaw | Stage::MapCoded => match &self.allocation {
                Some(allocation) => Action::Allocate {
                    dir: if self.stage == Stage::MapRaw {
                        Dir::Output
                    } else {
                        Dir::Capture
                    },
                    step: allocation.next(),
                },
                None => Action::Fail(Error::Refused),
            },
            Stage::Ready => Action::Ready,
            Stage::Failed => Action::Fail(Error::Refused),
        }
    }

    fn go(&mut self, stage: Stage) -> (action: Action)
        requires
            old(self)@.at(stage).wf(),
        ensures
            (final(self)@, action) == old(self)@.go(stage),
            final(self)@.wf(),
    {
        self.stage = stage;
        assert(self@ =~= old(self)@.at(stage));
        self.asks()
    }

    fn fail(&mut self, err: Error) -> (action: Action)
        requires
            old(self)@.config.size.valid(),
        ensures
            (final(self)@, action) == old(self)@.fail(err),
            final(self)@.wf(),
    {
        self.stage = Stage::Failed;
        assert(self@ =~= old(self)@.at(Stage::Failed));
        Action::Fail(err)
    }

    /// Whether a reply answers what was asked.
    pub fn admits(&self, reply: &Reply) -> (admits: bool)
        requires
            self@.wf(),
        ensures
            admits == self@.expects(*reply),
    {
        match reply {
            Reply::Refused => self.stage != Stage::Ready && self.stage != Stage::Failed,
            Reply::Done => match self.asks() {
                Action::SetControl { .. } | Action::SetFramerate { .. } => true,
                Action::Allocate { step, .. } => matches!(step, AllocStep::Query { .. }),
                _ => false,
            },
            Reply::Negotiated(format) => {
                let planes = format.planes.len();
                (self.stage == Stage::CodedFormat || self.stage == Stage::RawFormat) && 1 <= planes
                    && planes <= MAX_PLANES && (self.stage != Stage::RawFormat || format.counts(
                    self.config.size,
                ))
            },
            Reply::Granted(_) => self.stage == Stage::RequestRaw || self.stage
                == Stage::RequestCoded,
            Reply::Mapped(_) => match self.asks() {
                Action::Allocate { step, .. } => matches!(step, AllocStep::MapPlane { .. }),
                _ => false,
            },
        }
    }

    fn allocate(&mut self, dir: Dir, format: Format, count: u32, map: Stage) -> (action: Action)
        requires
            1 <= format.planes@.len() <= MAX_PLANES,
            old(self)@.config.size.valid(),
            count > 0 ==> old(self)@.allocate(dir, format, count, map).0.wf(),
        ensures
            (final(self)@, action) == old(self)@.allocate(dir, format, count, map),
            final(self)@.wf(),
    {
        match Allocation::new(dir, format, count) {
            Err(err) => self.fail(err),
            Ok(allocation) => {
                self.allocation = Some(allocation);
                self.go(map)
            },
        }
    }

    fn map(&mut self, reply: Reply) -> (action: Action)
        requires
            old(self)@.wf(),
            old(self)@.expects(reply),
            old(self)@.stage is MapRaw || old(self)@.stage is MapCoded,
            reply is Done || reply is Mapped,
        ensures
            (final(self)@, action) == old(self)@.map(reply),
            final(self)@.wf(),
    {
        let stage = self.stage;
        let ghost before = self@;
        match self.allocation.take() {
            None => self.fail(Error::Refused),
            Some(mut allocation) => {
                match reply {
                    Reply::Mapped(length) => allocation.mapped(length),
                    _ => allocation.queried(),
                }
                assert(allocation@ == before.stepped(reply));
                if !matches!(allocation.next(), AllocStep::Done) {
                    self.allocation = Some(allocation);
                    return self.go(stage);
                }
                if stage == Stage::MapRaw {
                    self.raw = Some(allocation.finish());
                    self.go(Stage::RequestCoded)
                } else {
                    self.coded = Some(allocation.finish());
                    self.go(Stage::Ready)
                }
            },
        }
    }

    /// Take in what came of the last action, and say what to do next.
    pub fn step(&mut self, reply: Reply) -> (action: Action)
        requires
            old(self)@.wf(),
            old(self)@.expects(reply),
        ensures
            (final(self)@, action) == old(self)@.step(reply),
            final(self)@.wf(),
    {
        let done = matches!(reply, Reply::Done);
        match (self.stage, reply) {
            (Stage::Profile, Reply::Done) => self.go(Stage::Level),
            (Stage::Level, Reply::Done) => self.go(Stage::Gop),
            (Stage::Gop, Reply::Done) => self.go(Stage::Bitrate),
            (Stage::Bitrate, Reply::Done) => self.go(Stage::BitrateMode),
            (Stage::BitrateMode, _) => self.go(Stage::HeaderMode),
            (Stage::HeaderMode, _) => self.go(Stage::Repeat),
            (Stage::Repeat, _) => {
                self.repeats = done;
                self.go(Stage::Prepend)
            },
            (Stage::Prepend, _) => {
                self.repeats = self.repeats || done;
                self.go(Stage::CodedFormat)
            },
            (Stage::CodedFormat, Reply::Negotiated(format)) => {
                if format.pixelformat != H264 {
                    self.fail(Error::EncoderFormat { pixelformat: format.pixelformat })
                } else {
                    self.coded_format = Some(format);
                    self.go(Stage::RawFormat)
                }
            },
            (Stage::RawFormat, Reply::Negotiated(format)) => {
                self.raw_format = Some(format);
                self.go(Stage::Framerate)
            },
            (Stage::Framerate, _) => {
                let planes = match &self.raw_format {
                    Some(format) => Planes::new(format, self.config.size),
                    None => Err(Error::Refused),
                };
                match planes {
                    Ok(planes) => {
                        reveal(laid_out);
                        self.planes = Some(planes);
                        self.go(Stage::RequestRaw)
                    },
                    Err(err) => self.fail(err),
                }
            },
            (Stage::RequestRaw, Reply::Granted(count)) => match self.raw_format.take() {
                Some(format) => self.allocate(Dir::Output, format, count, Stage::MapRaw),
                None => self.fail(Error::Refused),
            },
            (Stage::RequestCoded, Reply::Granted(count)) => match self.coded_format.take() {
                Some(format) => self.allocate(Dir::Capture, format, count, Stage::MapCoded),
                None => self.fail(Error::Refused),
            },
            (Stage::MapRaw | Stage::MapCoded, reply @ (Reply::Done | Reply::Mapped(_))) => self.map(
                reply,
            ),
            _ => self.fail(Error::Refused),
        }
    }

    /// The encoder, once it is set up.
    pub fn finish(self) -> (encoder: Option<V4l2>)
        requires
            self@.wf(),
        ensures
            match encoder {
                Some(encoder) => {
                    &&& self@.stage is Ready
                    &&& encoder@ == EncoderView::fresh(
                        self@.raw->0,
                        self@.coded->0,
                        self@.planes->0,
                        self@.config.size,
                    )
                    &&& encoder@.wf()
                },
                None => !(self@.stage is Ready),
            },
    {
        if self.stage != Stage::Ready {
            return None;
        }
        match (self.raw, self.coded, self.planes) {
            (Some(raw), Some(coded), Some(planes)) => Some(
                V4l2::new(raw, coded, planes, self.config.size),
            ),
            _ => None,
        }
    }
}

/// Where setting up has come after the replies.
pub open spec fn after(config: Config, replies: Seq<Reply>) -> OpeningView
    decreases replies.len(),
{
    if replies.len() == 0 {
        OpeningView::start(config)
    } else {
        after(config, replies.drop_last()).step(replies.last()).0
    }
}

/// Whether each reply answers what was asked before it.
pub open spec fn answers(config: Config, replies: Seq<Reply>) -> bool
    decreases replies.len(),
{
    replies.len() > 0 ==> {
        &&& answers(config, replies.drop_last())
        &&& after(config, replies.drop_last()).expects(replies.last())
    }
}

/// No format is negotiated before the level the picture needs has been set, and
/// the raw format is negotiated against a coded format the driver has already
/// settled as H.264. No driver can answer its way around either.
pub proof fn law_the_level_is_set_before_any_format(config: Config, replies: Seq<Reply>)
    requires
        config.size.valid(),
        answers(config, replies),
    ensures
        after(config, replies).asks() matches Action::SetFormat { dir, .. } ==> {
            &&& replies.len() >= 2
            &&& after(config, replies.take(1)).asks() == (Action::SetControl {
                id: H264_LEVEL,
                value: level_for(config.size),
            })
            &&& replies[1] is Done
            &&& dir is Output ==> {
                &&& replies.last() matches Reply::Negotiated(format)
                &&& format.pixelformat == H264
                &&& after(config, replies.drop_last()).asks() matches Action::SetFormat {
                    dir: Dir::Capture,
                    ..
                }
            }
        },
{
    lemma_one_reply_a_stage(config, replies);
    if after(config, replies).asks() is SetFormat {
        lemma_progress(config, replies, 1);
        lemma_progress(config, replies, 2);
        lemma_one_reply_a_stage(config, replies.take(1));
        lemma_one_reply_a_stage(config, replies.take(2));
        assert(replies.take(2).drop_last() =~= replies.take(1));
        lemma_one_reply_a_stage(config, replies.drop_last());
    }
}

/// An encoder comes up only with everything it cannot do without: the driver took
/// the profile, the level, the GOP, and the bitrate, each as asked.
pub proof fn law_a_ready_encoder_has_its_settings(config: Config, replies: Seq<Reply>, at: int)
    requires
        config.size.valid(),
        answers(config, replies),
        after(config, replies).stage is Ready,
        0 <= at < 4,
    ensures
        replies.len() > at,
        replies[at] is Done,
        after(config, replies.take(at)).asks() == (OpeningView {
            stage: if at == 0 {
                Stage::Profile
            } else if at == 1 {
                Stage::Level
            } else if at == 2 {
                Stage::Gop
            } else {
                Stage::Bitrate
            },
            ..OpeningView::start(config)
        }).asks(),
{
    lemma_one_reply_a_stage(config, replies);
    lemma_progress(config, replies, at);
    lemma_progress(config, replies, at + 1);
    lemma_one_reply_a_stage(config, replies.take(at));
    lemma_one_reply_a_stage(config, replies.take(at + 1));
    assert(replies.take(at + 1).drop_last() =~= replies.take(at));
    assert(replies.take(at + 1).last() == replies[at]);
}

/// A run that has not failed had not failed at any point of it.
pub proof fn lemma_progress(config: Config, replies: Seq<Reply>, at: int)
    requires
        answers(config, replies),
        !(after(config, replies).stage is Failed),
        0 <= at <= replies.len(),
    ensures
        answers(config, replies.take(at)),
        !(after(config, replies.take(at)).stage is Failed),
    decreases replies.len(),
{
    if at == replies.len() {
        assert(replies.take(at) =~= replies);
    } else {
        assert(!(after(config, replies.drop_last()).stage is Failed));
        lemma_progress(config, replies.drop_last(), at);
        assert(replies.drop_last().take(at) =~= replies.take(at));
    }
}

/// Up to the first buffers, each stage takes one reply.
pub proof fn lemma_one_reply_a_stage(config: Config, replies: Seq<Reply>)
    requires
        config.size.valid(),
        answers(config, replies),
    ensures
        ({
            let now = after(config, replies);
            &&& now.config == config
            &&& now.stage is Failed || {
                if replies.len() <= 11 {
                    now.rank() == replies.len()
                } else {
                    11 <= now.rank() <= 15
                }
            }
        }),
    decreases replies.len(),
{
    if replies.len() > 0 {
        lemma_one_reply_a_stage(config, replies.drop_last());
    }
}

} // verus!

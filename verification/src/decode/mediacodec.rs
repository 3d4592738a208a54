//! Hardware H.264 / H.265 / AV1 decode via Android MediaCodec.
//!
//! Two queues run in step. The codec is fed access units and hands back output
//! buffers, each carrying its own presentation time, since a decoder emits
//! pictures in display order while it is fed in decode order. Releasing one of
//! those buffers for rendering queues the picture into an image reader, where it
//! is acquired as an image; that hop carries no timestamp of its own, so the
//! release order is recorded and each acquired image is paired with it.
//!
//! Frames hold slots in the reader's queue, so a consumer that hoards them stalls
//! decoding. Draw and drop.

use std::collections::VecDeque;

use vstd::prelude::*;
use vstd::string::*;

use super::Codec;
use crate::error::Error;
use crate::frame::Size;
use crate::time::{Timestamp, MAX_TIMESTAMP};

verus! {

/// `AMEDIACODEC_BUFFER_FLAG_CODEC_CONFIG`.
pub const FLAG_CODEC_CONFIG: u32 = 2;

/// `PRIORITY_REALTIME`: this is a live stream, not a file being played back.
pub const PRIORITY_REALTIME: i32 = 0;

/// The size the reader's queue is created at.
///
/// Only a default: MediaCodec sets the real geometry on the window once it has
/// parsed the stream, and each image reports what it actually got, which is what
/// a frame's size comes from.
pub const DEFAULT_WIDTH: i32 = 1920;

pub const DEFAULT_HEIGHT: i32 = 1080;

/// How many decoded pictures the reader's queue holds.
///
/// It has to cover the decoder's reference pictures (4 or so for H.264), the
/// consumer's playout buffer, and whatever is in flight between them; anything
/// less and the decoder stalls waiting for a slot that a consumer holding two
/// frames could have freed.
pub const QUEUE_DEPTH: i32 = 8;

/// How long to wait for a free input buffer on each round, in microseconds.
pub const INPUT_TIMEOUT: u64 = 10_000;

/// How many rounds a submission spends freeing an input buffer before giving up.
pub const SUBMIT_ROUNDS: u32 = 20;

impl Codec {
    /// The MIME type MediaCodec names the codec by.
    pub fn mime(self) -> (mime: &'static str)
        ensures
            mime@ == match self {
                Codec::H264 => "video/avc"@,
                Codec::H265 => "video/hevc"@,
                Codec::Av1 => "video/av01"@,
            },
    {
        match self {
            Codec::H264 => "video/avc",
            Codec::H265 => "video/hevc",
            Codec::Av1 => "video/av01",
        }
    }
}

/// A value of an `AMediaFormat`.
#[derive(Clone, Copy, Debug)]
pub enum Value {
    Str(&'static str),
    Int(i32),
}

/// What a [`Value`] holds.
pub enum Held {
    Str(Seq<char>),
    Int(i32),
}

impl Value {
    pub open spec fn view(&self) -> Held {
        match self {
            Value::Str(text) => Held::Str(text@),
            Value::Int(value) => Held::Int(*value),
        }
    }
}

/// One entry of an `AMediaFormat`.
#[derive(Clone, Copy, Debug)]
pub struct Entry {
    pub key: &'static str,
    pub value: Value,
}

impl Entry {
    pub open spec fn view(&self) -> (Seq<char>, Held) {
        (self.key@, self.value@)
    }
}

/// The `AMediaFormat` describing the stream to decode.
///
/// The dimensions are a starting guess that the first keyframe's parameter sets
/// correct, since nothing upstream of a backend knows the coded size. The
/// parameter sets ride the bitstream, so there is no `csd-0` / `csd-1` to set.
pub fn decoder_format(mime: &'static str, width: i32, height: i32) -> (entries: Vec<Entry>)
    ensures
        entries@.map_values(|entry: Entry| entry@) == seq![
            ("mime"@, Held::Str(mime@)),
            ("width"@, Held::Int(width)),
            ("height"@, Held::Int(height)),
            ("low-latency"@, Held::Int(1)),
            ("priority"@, Held::Int(PRIORITY_REALTIME)),
        ],
{
    let entries = vec![
        Entry { key: "mime", value: Value::Str(mime) },
        Entry { key: "width", value: Value::Int(width) },
        Entry { key: "height", value: Value::Int(height) },
        // Ask the decoder to hold as little as it can, which is the difference between a
        // live stream and a file. A hint an older device drops.
        Entry { key: "low-latency", value: Value::Int(1) },
        Entry { key: "priority", value: Value::Int(PRIORITY_REALTIME) },
    ];
    assert(entries@.map_values(|entry: Entry| entry@) =~= seq![
        ("mime"@, Held::Str(mime@)),
        ("width"@, Held::Int(width)),
        ("height"@, Held::Int(height)),
        ("low-latency"@, Held::Int(1)),
        ("priority"@, Held::Int(PRIORITY_REALTIME)),
    ]);
    entries
}

/// The part of an image that is the picture.
#[derive(Clone, Copy, Debug, PartialEq, Eq, Structural)]
pub struct Crop {
    pub left: i32,
    pub top: i32,
    pub right: i32,
    pub bottom: i32,
}

/// The dimensions an image reports.
#[derive(Clone, Copy, Debug, PartialEq, Eq, Structural)]
pub struct Image {
    pub width: i32,
    pub height: i32,
    pub crop: Crop,
}

/// A dimension rounded down to even, and none at all below zero.
pub open spec fn even(dimension: int) -> int {
    if dimension <= 0 {
        0
    } else {
        dimension - dimension % 2
    }
}

impl Image {
    pub open spec fn cropped_width(self) -> int {
        self.crop.right - self.crop.left
    }

    pub open spec fn cropped_height(self) -> int {
        self.crop.bottom - self.crop.top
    }

    /// Whether the crop is the picture: anchored at the origin, not empty, and
    /// inside the buffer.
    pub open spec fn anchored(self) -> bool {
        &&& self.crop.left == 0
        &&& self.crop.top == 0
        &&& 0 < self.cropped_width() <= self.width
        &&& 0 < self.cropped_height() <= self.height
    }

    /// The picture's visible size, both dimensions rounded down to even, or `None`
    /// when that leaves nothing.
    pub open spec fn visible(self) -> Option<Size> {
        let (width, height) = if self.anchored() {
            (even(self.cropped_width()), even(self.cropped_height()))
        } else {
            (even(self.width as int), even(self.height as int))
        };
        if width == 0 || height == 0 {
            None
        } else {
            Some(Size { width: width as u32, height: height as u32 })
        }
    }

    /// The crop's own dimensions are ones a crop can have.
    pub open spec fn measurable(self) -> bool {
        &&& i32::MIN <= self.cropped_width() <= i32::MAX
        &&& i32::MIN <= self.cropped_height() <= i32::MAX
    }

    /// Whether the crop's own dimensions are ones a crop can have.
    pub fn measures(&self) -> (measures: bool)
        ensures
            measures == self.measurable(),
    {
        let width = self.crop.right as i64 - self.crop.left as i64;
        let height = self.crop.bottom as i64 - self.crop.top as i64;
        i32::MIN as i64 <= width && width <= i32::MAX as i64 && i32::MIN as i64 <= height && height
            <= i32::MAX as i64
    }
}

fn round_down(dimension: i32) -> (even_dimension: u32)
    ensures
        even_dimension == even(dimension as int),
{
    if dimension <= 0 {
        0
    } else {
        let dimension = dimension as u32;
        dimension - dimension % 2
    }
}

/// The picture's visible size, both dimensions rounded down to even.
///
/// The crop rectangle rather than the buffer dimensions: a coded picture is
/// padded up to a macroblock multiple, so 1080 lines arrive as a 1088-line
/// buffer, and the crop is what says how much of it is the picture. Taken only
/// when the crop is anchored at the origin, since a read-back walks each plane
/// from there; a decoder that offsets its crop gets the whole buffer rather than
/// a picture shifted by the offset.
pub fn image_size(image: &Image) -> (r: Result<Size, Error>)
    requires
        image.measurable(),
    ensures
        r == match image.visible() {
            Some(size) => Ok(size),
            None => Err(Error::NotAPicture { width: image.width, height: image.height }),
        },
{
    let (mut w, mut h): (i32, i32) = (image.width, image.height);
    let crop = image.crop;
    let (cropped_w, cropped_h) = (crop.right - crop.left, crop.bottom - crop.top);
    if crop.left == 0 && crop.top == 0 && cropped_w > 0 && cropped_h > 0 && cropped_w <= w
        && cropped_h <= h {
        w = cropped_w;
        h = cropped_h;
    }
    // 4:2:0 chroma is 2x2, so an odd dimension has no whole chroma sample to go with its
    // last row or column.
    let (width, height) = (round_down(w), round_down(h));
    if width == 0 || height == 0 {
        return Err(Error::NotAPicture { width: image.width, height: image.height });
    }
    Ok(Size { width, height })
}

/// A visible size is one that 4:2:0 can represent, and no larger than the image.
pub proof fn law_a_visible_picture_is_whole(image: Image)
    requires
        image.visible() is Some,
    ensures
        image.visible()->0.valid(),
        image.visible()->0.width <= image.width,
        image.visible()->0.height <= image.height,
{
}

/// An output buffer the codec has ready.
#[derive(Clone, Copy, Debug, PartialEq, Eq, Structural)]
pub struct OutputInfo {
    pub flags: u32,
    pub size: i32,
    pub presentation_time_us: i64,
}

impl OutputInfo {
    /// Whether the buffer is a picture. An empty buffer is the codec's own marker,
    /// and a codec-config one is the parameter sets echoed back.
    pub open spec fn is_picture(self) -> bool {
        self.flags & FLAG_CODEC_CONFIG == 0 && self.size > 0
    }

    /// When the picture is shown. A decoder emits in display order, so the access
    /// unit being submitted is not the one coming out.
    pub open spec fn shown_at(self) -> u64 {
        if self.presentation_time_us < 0 {
            0
        } else {
            self.presentation_time_us as u64
        }
    }
}

/// What to do next.
#[derive(Clone, Debug, PartialEq, Eq)]
pub enum Action {
    /// Dequeue an output buffer, without waiting.
    DequeueOutput,
    /// Release the output buffer, for rendering or not.
    ReleaseOutput { render: bool },
    /// Acquire the next image from the reader.
    AcquireImage,
    /// Say that every decoded frame is still held by a consumer.
    WarnStalled,
    /// Hand the acquired image out as a frame.
    Emit { size: Size, timestamp: Timestamp },
    /// Dequeue an input buffer, waiting up to [`INPUT_TIMEOUT`].
    DequeueInput,
    /// Copy the access unit into the input buffer and queue it.
    QueueInput { len: usize, time: u64 },
    /// Nothing: the call is over.
    Done,
    /// Nothing: the call failed.
    Fail(Error),
}

/// What came of an [`Action`].
#[derive(Clone, Copy, Debug, PartialEq, Eq, Structural)]
pub enum Reply {
    /// It was done.
    Done,
    /// It failed.
    Refused,
    /// An output buffer.
    Output(OutputInfo),
    /// No output buffer is ready.
    NoOutput,
    /// The output format or buffers changed, which changes nothing here: the
    /// geometry is read off each image and the parameter sets are inline.
    OutputChanged,
    /// An image.
    Acquired(Image),
    /// An image whose dimensions could not be read.
    Unreadable,
    /// The picture is on its way but not queued yet.
    NoImage,
    /// Every slot in the reader's queue is held by a consumer.
    NoSlot,
    /// An input buffer, and how many bytes it takes.
    Input(usize),
    /// The codec has every input buffer.
    NoInput,
}

/// Why the codec is being drained, which is what comes after.
#[derive(Clone, Copy, Debug, PartialEq, Eq, Structural)]
pub enum Why {
    /// To collect what finished while the caller was elsewhere, which also frees
    /// an input buffer.
    Before,
    /// To free an input buffer, after so many rounds that found none.
    Starved { rounds: u32 },
    /// To collect what the access unit produced.
    After,
}

/// An access unit on its way to the codec.
#[derive(Clone, Copy, Debug, PartialEq, Eq, Structural)]
pub struct Input {
    pub len: usize,
    pub time: u64,
}

/// What the decoder is in the middle of.
#[derive(Clone, Copy, Debug, PartialEq, Eq, Structural)]
pub enum Phase {
    Idle,
    /// Looking for output.
    Draining { why: Why, input: Input },
    /// Releasing an output buffer.
    Releasing { why: Why, input: Input, info: OutputInfo },
    /// Acquiring rendered pictures. `more` says whether to look for more output
    /// after.
    Acquiring { why: Why, input: Input, more: bool },
    /// Handing a frame out.
    Emitting { why: Why, input: Input, more: bool },
    /// Saying that decoding is stalled.
    Warning { why: Why, input: Input, more: bool },
    /// Looking for an input buffer, after so many rounds that found none.
    Submitting { rounds: u32, input: Input },
    /// Queueing the access unit.
    Queueing { input: Input },
}

/// The decoder.
#[derive(Debug)]
pub struct MediaCodec {
    /// Timestamps of the pictures released for rendering whose image has not been
    /// acquired yet, oldest first.
    rendered: VecDeque<Timestamp>,
    /// Whether the last acquire found every slot held, so the stall is reported
    /// once on the way in rather than on every poll.
    stalled: bool,
    phase: Phase,
}

/// What a [`MediaCodec`] decoder keeps track of.
#[verifier::ext_equal]
pub struct MediaCodecView {
    pub rendered: Seq<Timestamp>,
    pub stalled: bool,
    pub phase: Phase,
}

impl MediaCodecView {
    pub open spec fn at(self, phase: Phase) -> MediaCodecView {
        MediaCodecView { phase, ..self }
    }

    pub open spec fn fail(self, err: Error) -> (MediaCodecView, Action) {
        (self.at(Phase::Idle), Action::Fail(err))
    }

    /// Begin to decode an access unit.
    pub open spec fn decode(self, len: usize, time: u64) -> (MediaCodecView, Action) {
        self.drain(Why::Before, Input { len, time })
    }

    /// Look for output.
    pub open spec fn drain(self, why: Why, input: Input) -> (MediaCodecView, Action) {
        (self.at(Phase::Draining { why, input }), Action::DequeueOutput)
    }

    /// Acquire what has been rendered.
    ///
    /// Eagerly, because releasing for rendering queues the picture into the reader
    /// before it returns, so the image is normally there already and waiting for
    /// the next access unit would add a frame of latency.
    pub open spec fn collect(self, why: Why, input: Input, more: bool) -> (
        MediaCodecView,
        Action,
    ) {
        if self.rendered.len() == 0 {
            self.collected(why, input, more)
        } else {
            (self.at(Phase::Acquiring { why, input, more }), Action::AcquireImage)
        }
    }

    /// Nothing more can be acquired.
    pub open spec fn collected(self, why: Why, input: Input, more: bool) -> (
        MediaCodecView,
        Action,
    ) {
        if more {
            self.drain(why, input)
        } else {
            match why {
                Why::Before => self.submit(0, input),
                Why::Starved { rounds } => if rounds + 1 < SUBMIT_ROUNDS {
                    self.submit((rounds + 1) as u32, input)
                } else {
                    self.fail(Error::InputStarved)
                },
                Why::After => (self.at(Phase::Idle), Action::Done),
            }
        }
    }

    /// Look for an input buffer.
    pub open spec fn submit(self, rounds: u32, input: Input) -> (MediaCodecView, Action) {
        (self.at(Phase::Submitting { rounds, input }), Action::DequeueInput)
    }

    /// What follows an output buffer that has been released.
    pub open spec fn released(self, why: Why, input: Input, info: OutputInfo) -> (
        MediaCodecView,
        Action,
    ) {
        if !info.is_picture() {
            self.collect(why, input, true)
        } else if info.shown_at() > MAX_TIMESTAMP {
            self.fail(Error::TimestampRange { micros: info.shown_at() })
        } else {
            MediaCodecView {
                rendered: self.rendered.push(Timestamp::of(info.shown_at())),
                ..self
            }.collect(why, input, true)
        }
    }

    /// What follows an acquired image: it is the oldest picture released.
    pub open spec fn acquired(self, why: Why, input: Input, more: bool, image: Image) -> (
        MediaCodecView,
        Action,
    ) {
        let rest = MediaCodecView { rendered: self.rendered.drop_first(), ..self };
        match image.visible() {
            None => rest.fail(Error::NotAPicture { width: image.width, height: image.height }),
            Some(size) => (
                rest.at(Phase::Emitting { why, input, more }),
                Action::Emit { size, timestamp: self.rendered.first() },
            ),
        }
    }

    /// What follows an image that was acquired and cannot be read: its time goes with
    /// it, so the next image does not come out under it.
    pub open spec fn unreadable(self) -> (MediaCodecView, Action) {
        MediaCodecView { rendered: self.rendered.drop_first(), ..self }.fail(Error::Refused)
    }

    /// What follows a reply.
    pub open spec fn step(self, reply: Reply) -> (MediaCodecView, Action) {
        match (self.phase, reply) {
            (Phase::Draining { why, input }, Reply::Output(info)) => (
                self.at(Phase::Releasing { why, input, info }),
                Action::ReleaseOutput { render: info.is_picture() },
            ),
            (Phase::Draining { why, input }, Reply::NoOutput) => self.collect(why, input, false),
            (Phase::Draining { why, input }, Reply::OutputChanged) => self.collect(
                why,
                input,
                true,
            ),
            (Phase::Releasing { why, input, info }, Reply::Done) => self.released(
                why,
                input,
                info,
            ),
            (Phase::Acquiring { why, input, more }, Reply::Acquired(image)) => self.acquired(
                why,
                input,
                more,
                image,
            ),
            (Phase::Acquiring { .. }, Reply::Unreadable) => self.unreadable(),
            (Phase::Acquiring { why, input, more }, Reply::NoImage) => MediaCodecView {
                stalled: false,
                ..self
            }.collected(why, input, more),
            (Phase::Acquiring { why, input, more }, Reply::NoSlot) => if self.stalled {
                self.collected(why, input, more)
            } else {
                (
                    MediaCodecView { stalled: true, ..self }.at(
                        Phase::Warning { why, input, more },
                    ),
                    Action::WarnStalled,
                )
            },
            (Phase::Emitting { why, input, more }, Reply::Done) => self.collect(why, input, more),
            (Phase::Warning { why, input, more }, Reply::Done) => self.collected(why, input, more),
            (Phase::Submitting { input, .. }, Reply::Input(capacity)) => if capacity < input.len {
                self.fail(Error::InputTooSmall { capacity, len: input.len })
            } else {
                (
                    self.at(Phase::Queueing { input }),
                    Action::QueueInput { len: input.len, time: input.time },
                )
            },
            (Phase::Submitting { rounds, input }, Reply::NoInput) => self.drain(
                Why::Starved { rounds },
                input,
            ),
            (Phase::Queueing { input }, Reply::Done) => self.drain(Why::After, input),
            _ => self.fail(Error::Refused),
        }
    }

    /// Whether the reply answers what was asked.
    pub open spec fn expects(self, reply: Reply) -> bool {
        match (self.phase, reply) {
            (Phase::Idle, _) => false,
            (_, Reply::Refused) => true,
            (Phase::Draining { .. }, Reply::Output(_)) => true,
            (Phase::Draining { .. }, Reply::NoOutput) => true,
            (Phase::Draining { .. }, Reply::OutputChanged) => true,
            (Phase::Acquiring { .. }, Reply::Acquired(image)) => image.measurable(),
            (Phase::Acquiring { .. }, Reply::Unreadable) => true,
            (Phase::Acquiring { .. }, Reply::NoImage) => true,
            (Phase::Acquiring { .. }, Reply::NoSlot) => true,
            (Phase::Submitting { .. }, Reply::Input(_)) => true,
            (Phase::Submitting { .. }, Reply::NoInput) => true,
            (Phase::Releasing { .. }, Reply::Done) => true,
            (Phase::Emitting { .. }, Reply::Done) => true,
            (Phase::Warning { .. }, Reply::Done) => true,
            (Phase::Queueing { .. }, Reply::Done) => true,
            _ => false,
        }
    }

    /// How many rounds the submission in progress has spent without an input
    /// buffer.
    pub open spec fn rounds(self) -> u32 {
        match self.phase {
            Phase::Submitting { rounds, .. } => rounds,
            Phase::Draining { why, .. }
            | Phase::Releasing { why, .. }
            | Phase::Acquiring { why, .. }
            | Phase::Emitting { why, .. }
            | Phase::Warning { why, .. } => match why {
                Why::Starved { rounds } => rounds,
                _ => 0,
            },
            _ => 0,
        }
    }

    pub open spec fn wf(self) -> bool {
        &&& self.rounds() < SUBMIT_ROUNDS
        &&& self.phase is Acquiring ==> self.rendered.len() > 0
    }
}

impl MediaCodec {
    pub closed spec fn view(&self) -> MediaCodecView {
        MediaCodecView {
            rendered: self.rendered@,
            stalled: self.stalled,
            phase: self.phase,
        }
    }

    /// A decoder that has been given nothing.
    pub fn new() -> (decoder: MediaCodec)
        ensures
            decoder@ == (MediaCodecView {
                rendered: Seq::empty(),
                stalled: false,
                phase: Phase::Idle,
            }),
    {
        MediaCodec { rendered: VecDeque::new(), stalled: false, phase: Phase::Idle }
    }

    /// What the decoder is called, for logs and errors.
    pub fn name(&self) -> (name: &'static str)
        ensures
            name@ == "mediacodec"@,
    {
        "mediacodec"
    }

    /// Begin to decode an access unit of `len` bytes.
    pub fn decode(&mut self, len: usize, timestamp: Timestamp) -> (action: Action)
        requires
            old(self)@.wf(),
        ensures
            (final(self)@, action) == old(self)@.decode(len, timestamp@),
            final(self)@.wf(),
    {
        let input = Input { len, time: timestamp.as_micros() as u64 };
        self.drain(Why::Before, input)
    }

    fn move_to(&mut self, phase: Phase)
        ensures
            final(self)@ == old(self)@.at(phase),
    {
        self.phase = phase;
    }

    fn fail(&mut self, err: Error) -> (action: Action)
        ensures
            (final(self)@, action) == old(self)@.fail(err),
    {
        self.move_to(Phase::Idle);
        Action::Fail(err)
    }

    fn drain(&mut self, why: Why, input: Input) -> (action: Action)
        ensures
            (final(self)@, action) == old(self)@.drain(why, input),
    {
        self.move_to(Phase::Draining { why, input });
        Action::DequeueOutput
    }

    fn submit(&mut self, rounds: u32, input: Input) -> (action: Action)
        ensures
            (final(self)@, action) == old(self)@.submit(rounds, input),
    {
        self.move_to(Phase::Submitting { rounds, input });
        Action::DequeueInput
    }

    fn collect(&mut self, why: Why, input: Input, more: bool) -> (action: Action)
        requires
            why matches Why::Starved { rounds } ==> rounds < SUBMIT_ROUNDS,
        ensures
            (final(self)@, action) == old(self)@.collect(why, input, more),
    {
        if self.rendered.len() == 0 {
            self.collected(why, input, more)
        } else {
            self.move_to(Phase::Acquiring { why, input, more });
            Action::AcquireImage
        }
    }

    fn collected(&mut self, why: Why, input: Input, more: bool) -> (action: Action)
        requires
            why matches Why::Starved { rounds } ==> rounds < SUBMIT_ROUNDS,
        ensures
            (final(self)@, action) == old(self)@.collected(why, input, more),
    {
        if more {
            return self.drain(why, input);
        }
        match why {
            Why::Before => self.submit(0, input),
            Why::Starved { rounds } => {
                if rounds + 1 < SUBMIT_ROUNDS {
                    self.submit(rounds + 1, input)
                } else {
                    self.fail(Error::InputStarved)
                }
            },
            Why::After => {
                self.move_to(Phase::Idle);
                Action::Done
            },
        }
    }

    fn released(&mut self, why: Why, input: Input, info: OutputInfo) -> (action: Action)
        requires
            why matches Why::Starved { rounds } ==> rounds < SUBMIT_ROUNDS,
        ensures
            (final(self)@, action) == old(self)@.released(why, input, info),
    {
        if info.flags & FLAG_CODEC_CONFIG != 0 || info.size <= 0 {
            return self.collect(why, input, true);
        }
        let micros = if info.presentation_time_us < 0 {
            0
        } else {
            info.presentation_time_us as u64
        };
        match Timestamp::from_micros(micros) {
            Err(err) => self.fail(err),
            Ok(timestamp) => {
                self.rendered.push_back(timestamp);
                self.collect(why, input, true)
            },
        }
    }

    fn acquired(&mut self, why: Why, input: Input, more: bool, image: Image) -> (action: Action)
        requires
            image.measurable(),
            old(self)@.rendered.len() > 0,
        ensures
            (final(self)@, action) == old(self)@.acquired(why, input, more, image),
    {
        let front = self.rendered.pop_front();
        assert(self@.rendered =~= old(self)@.rendered.drop_first());
        match (image_size(&image), front) {
            (Ok(size), Some(timestamp)) => {
                self.move_to(Phase::Emitting { why, input, more });
                Action::Emit { size, timestamp }
            },
            (Err(err), _) => self.fail(err),
            (Ok(_), None) => self.fail(Error::Refused),
        }
    }

    fn unreadable(&mut self) -> (action: Action)
        requires
            old(self)@.rendered.len() > 0,
        ensures
            (final(self)@, action) == old(self)@.unreadable(),
    {
        self.rendered.pop_front();
        assert(self@.rendered =~= old(self)@.rendered.drop_first());
        self.fail(Error::Refused)
    }

    /// Whether a reply answers what was asked.
    pub fn admits(&self, reply: Reply) -> (admits: bool)
        ensures
            admits == self@.expects(reply),
    {
        match (self.phase, reply) {
            (Phase::Idle, _) => false,
            (_, Reply::Refused) => true,
            (
                Phase::Draining { .. },
                Reply::Output(_) | Reply::NoOutput | Reply::OutputChanged,
            ) => true,
            (Phase::Acquiring { .. }, Reply::Acquired(image)) => image.measures(),
            (
                Phase::Acquiring { .. },
                Reply::Unreadable | Reply::NoImage | Reply::NoSlot,
            ) => true,
            (Phase::Submitting { .. }, Reply::Input(_) | Reply::NoInput) => true,
            (
                Phase::Releasing { .. }
                | Phase::Emitting { .. }
                | Phase::Warning { .. }
                | Phase::Queueing { .. },
                Reply::Done,
            ) => true,
            _ => false,
        }
    }

    /// Take in what came of the last action, and say what to do next.
    pub fn step(&mut self, reply: Reply) -> (action: Action)
        requires
            old(self)@.wf(),
            old(self)@.expects(reply),
        ensures
            (final(self)@, action) == old(self)@.step(reply),
            final(self)@.wf(),
    {
        match (self.phase, reply) {
            (Phase::Draining { why, input }, Reply::Output(info)) => {
                let render = info.flags & FLAG_CODEC_CONFIG == 0 && info.size > 0;
                self.move_to(Phase::Releasing { why, input, info });
                Action::ReleaseOutput { render }
            },
            (Phase::Draining { why, input }, Reply::NoOutput) => self.collect(why, input, false),
            (Phase::Draining { why, input }, Reply::OutputChanged) => self.collect(
                why,
                input,
                true,
            ),
            (Phase::Releasing { why, input, info }, Reply::Done) => self.released(
                why,
                input,
                info,
            ),
            (Phase::Acquiring { why, input, more }, Reply::Acquired(image)) => self.acquired(
                why,
                input,
                more,
                image,
            ),
            (Phase::Acquiring { .. }, Reply::Unreadable) => self.unreadable(),
            (Phase::Acquiring { why, input, more }, Reply::NoImage) => {
                self.stalled = false;
                self.collected(why, input, more)
            },
            (Phase::Acquiring { why, input, more }, Reply::NoSlot) => {
                if self.stalled {
                    self.collected(why, input, more)
                } else {
                    self.stalled = true;
                    self.move_to(Phase::Warning { why, input, more });
                    Action::WarnStalled
                }
            },
            (Phase::Emitting { why, input, more }, Reply::Done) => self.collect(why, input, more),
            (Phase::Warning { why, input, more }, Reply::Done) => self.collected(why, input, more),
            (Phase::Submitting { input, .. }, Reply::Input(capacity)) => {
                if capacity < input.len {
                    self.fail(Error::InputTooSmall { capacity, len: input.len })
                } else {
                    self.move_to(Phase::Queueing { input });
                    Action::QueueInput { len: input.len, time: input.time }
                }
            },
            // Every input buffer is still with the codec; collecting its output is what
            // frees one.
            (Phase::Submitting { rounds, input }, Reply::NoInput) => self.drain(
                Why::Starved { rounds },
                input,
            ),
            (Phase::Queueing { input }, Reply::Done) => self.drain(Why::After, input),
            _ => self.fail(Error::Refused),
        }
    }
}

/// What a failed call on the codec says.
pub fn codec_err(what: &str, cause: &str) -> (text: String)
    ensures
        text@ == "failed to "@ + what@ + " on the MediaCodec decoder: "@ + cause@,
{
    let mut text = "failed to ".to_owned();
    text.append(what);
    text.append(" on the MediaCodec decoder: ");
    text.append(cause);
    text
}

/// What a failed call on the reader says.
pub fn reader_err(what: &str, cause: &str) -> (text: String)
    ensures
        text@ == "failed to "@ + what@ + " on the decoder's ImageReader: "@ + cause@,
{
    let mut text = "failed to ".to_owned();
    text.append(what);
    text.append(" on the decoder's ImageReader: ");
    text.append(cause);
    text
}

/// Something that happens to the decoder.
pub enum Turn {
    /// A caller hands it an access unit.
    Decode { len: usize, time: u64 },
    /// The last action is answered.
    Reply(Reply),
}

impl MediaCodecView {
    pub open spec fn allows(self, turn: Turn) -> bool {
        match turn {
            Turn::Decode { .. } => self.phase is Idle,
            Turn::Reply(reply) => self.expects(reply),
        }
    }

    pub open spec fn turn(self, turn: Turn) -> (MediaCodecView, Action) {
        match turn {
            Turn::Decode { len, time } => self.decode(len, time),
            Turn::Reply(reply) => self.step(reply),
        }
    }

    /// The time of the picture that a turn finds released for rendering, if it
    /// does.
    pub open spec fn renders(self, turn: Turn) -> Option<Timestamp> {
        match (self.phase, turn) {
            (Phase::Releasing { info, .. }, Turn::Reply(Reply::Done)) => if info.is_picture()
                && info.shown_at() <= MAX_TIMESTAMP {
                Some(Timestamp::of(info.shown_at()))
            } else {
                None
            },
            _ => None,
        }
    }

    /// Whether a turn finds an image acquired, readable or not.
    pub open spec fn acquires(self, turn: Turn) -> bool {
        match (self.phase, turn) {
            (Phase::Acquiring { .. }, Turn::Reply(Reply::Acquired(_))) => true,
            (Phase::Acquiring { .. }, Turn::Reply(Reply::Unreadable)) => true,
            _ => false,
        }
    }
}

/// What happens to the times of pictures over a run of turns, and the decoder after
/// it.
#[verifier::ext_equal]
pub struct Run {
    pub now: MediaCodecView,
    /// The times of the pictures released for rendering.
    pub released: Seq<Timestamp>,
    /// The times that were waiting first when an image was acquired.
    pub acquired: Seq<Timestamp>,
    /// The times of the frames handed out.
    pub emitted: Seq<Timestamp>,
}

pub open spec fn run(start: MediaCodecView, turns: Seq<Turn>) -> Run
    decreases turns.len(),
{
    if turns.len() == 0 {
        Run {
            now: start,
            released: Seq::empty(),
            acquired: Seq::empty(),
            emitted: Seq::empty(),
        }
    } else {
        let before = run(start, turns.drop_last());
        let (now, action) = before.now.turn(turns.last());
        Run {
            now,
            released: match before.now.renders(turns.last()) {
                Some(timestamp) => before.released.push(timestamp),
                None => before.released,
            },
            acquired: if before.now.acquires(turns.last()) {
                before.acquired.push(before.now.rendered.first())
            } else {
                before.acquired
            },
            emitted: match action {
                Action::Emit { timestamp, .. } => before.emitted.push(timestamp),
                _ => before.emitted,
            },
        }
    }
}

/// Whether each turn of a run can happen.
pub open spec fn allowed(start: MediaCodecView, turns: Seq<Turn>) -> bool
    decreases turns.len(),
{
    turns.len() > 0 ==> {
        &&& allowed(start, turns.drop_last())
        &&& run(start, turns.drop_last()).now.allows(turns.last())
    }
}

/// Images are paired with the pictures released for rendering in the order those
/// were released, none skipped and none used twice, whatever becomes of the images:
/// the times of the images acquired, followed by those still waiting, are the times
/// that waited at the start followed by those released since.
pub proof fn law_images_are_paired_in_release_order(start: MediaCodecView, turns: Seq<Turn>)
    requires
        start.wf(),
        allowed(start, turns),
    ensures
        ({
            let Run { now, released, acquired, .. } = run(start, turns);
            &&& acquired + now.rendered == start.rendered + released
            &&& now.wf()
        }),
    decreases turns.len(),
{
    if turns.len() == 0 {
        assert(Seq::<Timestamp>::empty() + start.rendered =~= start.rendered + Seq::empty());
    } else {
        law_images_are_paired_in_release_order(start, turns.drop_last());
        let before = run(start, turns.drop_last());
        let after = run(start, turns);
        lemma_rendered(before.now, turns.last());
        let whole = before.acquired + before.now.rendered;
        match before.now.renders(turns.last()) {
            Some(timestamp) => {
                assert(after.acquired + after.now.rendered =~= whole.push(timestamp));
                assert(start.rendered + after.released =~= whole.push(timestamp));
            },
            None => {
                assert(after.acquired + after.now.rendered =~= whole);
            },
        }
    }
}

/// How one turn moves the pictures waiting to be acquired.
proof fn lemma_rendered(before: MediaCodecView, turn: Turn)
    requires
        before.wf(),
        before.allows(turn),
    ensures
        ({
            let (now, action) = before.turn(turn);
            &&& now.wf()
            &&& match before.renders(turn) {
                Some(timestamp) => {
                    &&& now.rendered == before.rendered.push(timestamp)
                    &&& !before.acquires(turn)
                },
                None => if before.acquires(turn) {
                    &&& before.rendered.len() > 0
                    &&& now.rendered == before.rendered.drop_first()
                } else {
                    now.rendered == before.rendered
                },
            }
        }),
{
}

/// A frame is handed out when an image that shows something is acquired and at no
/// other time, in its visible size and under the time it is paired with.
pub proof fn law_a_frame_is_an_acquired_image(decoder: MediaCodecView, turn: Turn)
    requires
        decoder.wf(),
        decoder.allows(turn),
    ensures
        match decoder.turn(turn).1 {
            Action::Emit { size, timestamp } => {
                &&& turn matches Turn::Reply(Reply::Acquired(image))
                &&& decoder.acquires(turn)
                &&& image.visible() == Some(size)
                &&& timestamp == decoder.rendered.first()
            },
            _ => decoder.acquires(turn) ==> match turn {
                Turn::Reply(Reply::Acquired(image)) => image.visible() is None,
                _ => true,
            },
        },
{
}

/// Whether each image acquired over a run is handed out as a frame.
pub open spec fn shows_everything(start: MediaCodecView, turns: Seq<Turn>) -> bool
    decreases turns.len(),
{
    turns.len() > 0 ==> {
        let before = run(start, turns.drop_last()).now;
        &&& shows_everything(start, turns.drop_last())
        &&& before.acquires(turns.last()) ==> before.turn(turns.last()).1 is Emit
    }
}

/// Frames come out under the times of the pictures released for rendering, in the
/// order those were released, none skipped and none used twice, for as long as
/// every image can be read and holds a picture.
pub proof fn law_images_are_shown_in_release_order(start: MediaCodecView, turns: Seq<Turn>)
    requires
        start.wf(),
        allowed(start, turns),
        shows_everything(start, turns),
    ensures
        ({
            let Run { now, released, emitted, .. } = run(start, turns);
            emitted + now.rendered == start.rendered + released
        }),
{
    law_images_are_paired_in_release_order(start, turns);
    lemma_all_emitted(start, turns);
}

proof fn lemma_all_emitted(start: MediaCodecView, turns: Seq<Turn>)
    requires
        start.wf(),
        allowed(start, turns),
        shows_everything(start, turns),
    ensures
        run(start, turns).emitted == run(start, turns).acquired,
    decreases turns.len(),
{
    if turns.len() > 0 {
        lemma_all_emitted(start, turns.drop_last());
        law_images_are_paired_in_release_order(start, turns.drop_last());
        law_a_frame_is_an_acquired_image(run(start, turns.drop_last()).now, turns.last());
    }
}

/// A stall is reported once on the way in: saying so takes a decoder that was not
/// stalled, leaves one that is, and only the reader running dry clears it.
pub proof fn law_a_stall_is_reported_once(decoder: MediaCodecView, reply: Reply)
    requires
        decoder.wf(),
        decoder.expects(reply),
    ensures
        ({
            let (next, action) = decoder.step(reply);
            &&& action is WarnStalled ==> !decoder.stalled && next.stalled
            &&& decoder.stalled && !next.stalled ==> reply is NoImage
        }),
{
}

/// A submission gives up only after [`SUBMIT_ROUNDS`] rounds that found no input
/// buffer, and never queues an access unit that does not fit.
pub proof fn law_a_submission_is_bounded(decoder: MediaCodecView, reply: Reply)
    requires
        decoder.wf(),
        decoder.expects(reply),
    ensures
        match decoder.step(reply).1 {
            Action::Fail(Error::InputStarved) => decoder.rounds() + 1 == SUBMIT_ROUNDS,
            Action::QueueInput { len, .. } => reply matches Reply::Input(capacity) && len
                <= capacity,
            _ => true,
        },
        decoder.step(reply).0.rounds() <= decoder.rounds() + 1,
{
}

} // verus!

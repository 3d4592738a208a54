//! Hardware H.264 decode via the V4L2 stateful M2M decoder.
//!
//! Access units go in on the OUTPUT queue in decode order and pictures come back
//! on CAPTURE. The driver copies each input buffer's timestamp onto the picture
//! it produced, so presentation times survive decoder delay without any
//! bookkeeping here.
//!
//! Stateful is the operative word. The driver parses the stream itself and
//! announces the picture size with a `V4L2_EVENT_SOURCE_CHANGE`, which is why
//! the CAPTURE queue does not exist until the first parameter sets have been
//! fed: decoding returns no frames until it arrives. The same event later means
//! the stream changed size, and the CAPTURE queue is torn down and renegotiated.

use vstd::prelude::*;

use crate::error::Error;
use crate::frame::{Size, I420};
use crate::time::{stamp, stamped, until, Duration, Timestamp, MAX_TIMESTAMP};
use crate::v4l2::format::{Dir, Format, Request, MAX_PLANES};
use crate::v4l2::fourcc::{contains, is_raw, RAW};
use crate::v4l2::picture::Buffer;
use crate::v4l2::planes::{laid_out, layout, Planes};
use crate::v4l2::queue::{
    AllocStep, Allocation, AllocationView, Dequeue, Dequeued, Queue, QueueView, Submission,
};

verus! {

/// Pictures to allocate beyond the driver's stated minimum, so a caller holding a
/// frame or two does not stall decoding.
pub const SPARE_PICTURES: u32 = 3;

/// Pictures to allocate when the driver will not say what it needs.
pub const DEFAULT_PICTURES: u32 = 8;

/// How long a decode waits for the driver to take an access unit before giving
/// up on it, in nanoseconds.
pub const BUFFER_TIMEOUT: u64 = 500_000_000;

/// How long a call waits for the source change that follows the first parameter
/// sets, in nanoseconds. Missing it is not an error on its own: a subscriber can
/// join anywhere in a group, so the first access units of a stream may well be
/// undecodable and the next one gets another look.
pub const SOURCE_CHANGE_TIMEOUT: u64 = 250_000_000;

/// How long the decoder spends waiting for that source change in total before
/// giving up on the stream, in nanoseconds.
///
/// Without a ceiling, a stream the driver can never size costs every call the
/// whole of [`SOURCE_CHANGE_TIMEOUT`] and returns nothing. Generous enough to
/// cover a join a long way from the next keyframe.
pub const SOURCE_CHANGE_BUDGET: u64 = 5_000_000_000;

/// How long a resolution change waits for the driver to hand back the pictures it
/// decoded before it, in nanoseconds. Missing the tail costs those pictures but
/// not the stream, so it is bounded rather than waited out.
pub const DRAIN_TIMEOUT: u64 = 500_000_000;

/// `V4L2_CID_MIN_BUFFERS_FOR_CAPTURE`.
pub const MIN_BUFFERS_FOR_CAPTURE: u32 = 0x0098_0927;

/// A decoded picture and when it is shown.
#[derive(Debug)]
pub struct Frame {
    pub picture: I420,
    pub timestamp: Timestamp,
}

/// What a [`Frame`] shows.
pub struct Shown {
    pub size: Size,
    pub samples: Seq<u8>,
    pub timestamp: u64,
}

impl Frame {
    pub open spec fn view(&self) -> Shown {
        Shown {
            size: self.picture.spec_size(),
            samples: self.picture@,
            timestamp: self.timestamp@,
        }
    }
}

/// What to do next.
#[derive(Clone, Debug, PartialEq, Eq)]
pub enum Action {
    /// Dequeue from the coded queue, without blocking.
    DequeueCoded,
    /// Park until the device has something, or a poll interval elapses.
    Wait,
    /// Copy the access unit into the front of a coded buffer.
    Fill { index: u32 },
    /// Queue a coded buffer, as [`V4l2::coded_submission`] says.
    QueueCoded { index: u32, len: u32, timestamp: Duration },
    /// Take a source change event, if there is one.
    TakeSourceChange,
    /// Stop the picture queue and give its buffers up.
    Release,
    /// Read the picture queue's format.
    GetFormat,
    /// List the formats the picture queue offers.
    ListFormats,
    /// Negotiate the picture queue's format.
    SetFormat { request: Request },
    /// Read the visible rectangle of the picture queue.
    VisibleSize,
    /// Read [`MIN_BUFFERS_FOR_CAPTURE`].
    MinimumBuffers,
    /// Ask the driver for the picture queue's buffers.
    RequestBuffers { count: u32 },
    /// Map what was granted, one plane at a time.
    Allocate { step: AllocStep },
    /// Queue a picture buffer, as [`V4l2::picture_submission`] says.
    QueuePicture { index: u32 },
    /// Start the picture queue.
    StreamPictures,
    /// Dequeue from the picture queue, without blocking.
    DequeuePicture,
    /// Nothing: the call is over, and [`V4l2::take_frames`] has what it produced.
    Done,
    /// Nothing: the call failed.
    Fail(Error),
}

/// What came of an [`Action`].
pub enum Reply<'a, 'b> {
    /// It was done.
    Done,
    /// It failed.
    Refused,
    /// What the coded queue gave.
    Coded(Dequeue),
    /// What the picture queue gave, and the memory of the buffer it gave.
    Picture(Dequeue, Option<&'a Buffer<'b>>),
    /// Whether there was a source change event.
    Changed(bool),
    /// The format the picture queue is in.
    Negotiated(Format),
    /// The fourccs the picture queue offers.
    Offered(Vec<u32>),
    /// The visible rectangle, from a driver that reports one.
    Visible(Option<Size>),
    /// How many pictures the driver needs for itself, from one that says.
    Minimum(Option<i32>),
    /// How many buffers the driver granted.
    Granted(u32),
    /// How many bytes of a plane were mapped.
    Mapped(u32),
}

/// What a [`Reply`] says.
pub enum Told {
    Done,
    Refused,
    Coded(Dequeue),
    Picture(Dequeue, Option<Seq<Seq<u8>>>),
    Changed(bool),
    Negotiated(Format),
    Offered(Seq<u32>),
    Visible(Option<Size>),
    Minimum(Option<i32>),
    Granted(u32),
    Mapped(u32),
}

impl<'a, 'b> Reply<'a, 'b> {
    pub open spec fn view(&self) -> Told {
        match self {
            Reply::Done => Told::Done,
            Reply::Refused => Told::Refused,
            Reply::Coded(dequeue) => Told::Coded(*dequeue),
            Reply::Picture(dequeue, Some(memory)) => Told::Picture(*dequeue, Some(memory@)),
            Reply::Picture(dequeue, None) => Told::Picture(*dequeue, None),
            Reply::Changed(changed) => Told::Changed(*changed),
            Reply::Negotiated(format) => Told::Negotiated(*format),
            Reply::Offered(codes) => Told::Offered(codes@),
            Reply::Visible(size) => Told::Visible(*size),
            Reply::Minimum(count) => Told::Minimum(*count),
            Reply::Granted(count) => Told::Granted(*count),
            Reply::Mapped(length) => Told::Mapped(*length),
        }
    }
}

/// What a drain is for, which is what decides when it is over.
#[derive(Clone, Copy, Debug, PartialEq, Eq, Structural)]
pub enum Goal {
    /// Take what has finished by now.
    Collect,
    /// The stream is changing size: go on to the end of the sequence, up to the
    /// deadline, and negotiate again.
    Tail { deadline: u128 },
}

/// An access unit on its way to the driver.
#[derive(Clone, Copy, Debug, PartialEq, Eq, Structural)]
pub struct Input {
    pub len: usize,
    pub timestamp: Duration,
}

/// What the decoder is in the middle of.
#[derive(Clone, Copy, Debug)]
pub enum Phase {
    /// Nothing.
    Idle,
    /// Taking back coded buffers, until one is free.
    Freeing { input: Input, deadline: u128 },
    /// Parked because the driver holds every coded buffer.
    Starved { input: Input, deadline: u128 },
    /// Copying the access unit into a coded buffer.
    Filling { input: Input, index: u32 },
    /// Handing the access unit to the driver.
    Queueing,
    /// Looking for the first source change.
    Sizing { deadline: u128 },
    /// Parked because the first source change has not come.
    Unsized { deadline: u128 },
    /// Looking for a later source change.
    Checking,
    /// Giving up the old pictures.
    Releasing,
    /// Reading the format the driver defaults to.
    Defaulting,
    /// Listing the formats the driver offers.
    Listing,
    /// Asking for one of them.
    Choosing,
    /// Reading the visible rectangle.
    Measuring,
    /// Reading how many pictures the driver needs.
    Counting,
    /// Asking for the buffers.
    Requesting,
    /// Mapping them.
    Allocating,
    /// Handing every picture buffer to the driver.
    Priming,
    /// Starting the picture queue.
    Starting,
    /// Taking pictures.
    Collecting { goal: Goal },
    /// Handing a picture buffer back, its picture already copied out if it could
    /// be.
    Requeueing { goal: Goal, buffer: Dequeued },
    /// Parked because the tail is not over.
    Parked { deadline: u128 },
}

/// The CAPTURE queue plus where a picture sits in one of its buffers.
#[derive(Debug)]
pub struct Pictures {
    pub queue: Queue,
    pub planes: Planes,
}

/// What [`Pictures`] are.
#[verifier::ext_equal]
pub struct PicturesView {
    pub queue: QueueView,
    pub planes: Planes,
}

impl PicturesView {
    /// The layout is the one the queue's own format calls for.
    pub open spec fn wf(self) -> bool {
        &&& self.queue.wf()
        &&& self.queue.dir == Dir::Capture
        &&& laid_out(self.queue.format, self.planes.size, self.planes)
    }
}

impl Pictures {
    pub open spec fn view(&self) -> PicturesView {
        PicturesView { queue: self.queue@, planes: self.planes }
    }
}

/// The decoder.
#[derive(Debug)]
pub struct V4l2 {
    /// The OUTPUT queue: access units going in.
    coded: Queue,
    /// The CAPTURE queue, which exists only once the driver has reported the
    /// stream's size.
    pictures: Option<Pictures>,
    /// When the first access unit went in, which is what
    /// [`SOURCE_CHANGE_BUDGET`] is measured from.
    since: Option<u64>,
    /// Pictures the call in progress has produced.
    frames: Vec<Frame>,
    /// The picture in the buffer being handed back, if it holds one, or why it could
    /// not be copied out.
    decoded: Option<Result<I420, Error>>,
    /// The format being negotiated.
    format: Option<Format>,
    /// The layout being negotiated.
    planes: Option<Planes>,
    /// The buffers being mapped.
    allocation: Option<Allocation>,
    /// The pictures being handed to the driver for the first time.
    primed: Option<Pictures>,
    phase: Phase,
}

/// A copied-out picture: its size and its samples.
pub type Samples = (Size, Seq<u8>);

/// What a [`V4l2`] decoder keeps track of.
#[verifier::ext_equal]
pub struct DecoderView {
    pub coded: QueueView,
    pub pictures: Option<PicturesView>,
    pub since: Option<u64>,
    pub frames: Seq<Shown>,
    pub decoded: Option<Result<Samples, Error>>,
    pub format: Option<Format>,
    pub planes: Option<Planes>,
    pub allocation: Option<AllocationView>,
    pub primed: Option<PicturesView>,
    pub phase: Phase,
}

/// What a list of frames shows.
pub open spec fn shown(frames: Seq<Frame>) -> Seq<Shown> {
    frames.map_values(|frame: Frame| frame@)
}

/// The first of the formats that can be laid out here, in order of preference,
/// that is on offer.
pub open spec fn preferred(offered: Seq<u32>) -> Option<u32> {
    if offered.contains(RAW[0]) {
        Some(RAW[0])
    } else if offered.contains(RAW[1]) {
        Some(RAW[1])
    } else if offered.contains(RAW[2]) {
        Some(RAW[2])
    } else if offered.contains(RAW[3]) {
        Some(RAW[3])
    } else {
        None
    }
}

/// How many pictures to ask for. The driver needs a minimum of its own to hold
/// reference frames; anything below it decodes wrong or not at all.
pub open spec fn picture_count(minimum: Option<i32>) -> u32 {
    match minimum {
        None => DEFAULT_PICTURES,
        Some(minimum) => if minimum < 1 {
            (1 + SPARE_PICTURES) as u32
        } else {
            (minimum + SPARE_PICTURES) as u32
        },
    }
}

impl DecoderView {
    /// A decoder that has been given nothing.
    pub open spec fn fresh(coded: QueueView) -> DecoderView {
        DecoderView {
            coded,
            pictures: None,
            since: None,
            frames: Seq::empty(),
            decoded: None,
            format: None,
            planes: None,
            allocation: None,
            primed: None,
            phase: Phase::Idle,
        }
    }

    pub open spec fn at(self, phase: Phase) -> DecoderView {
        DecoderView { phase, ..self }
    }

    /// Give up on the call, and on whatever was being negotiated.
    pub open spec fn fail(self, err: Error) -> (DecoderView, Action) {
        (
            DecoderView {
                decoded: None,
                format: None,
                planes: None,
                allocation: None,
                primed: None,
                ..self
            }.at(Phase::Idle),
            Action::Fail(err),
        )
    }

    /// End the call with what it produced.
    pub open spec fn done(self) -> (DecoderView, Action) {
        (self.at(Phase::Idle), Action::Done)
    }

    /// Begin to decode an access unit, dropping what an earlier call left behind or
    /// unfinished.
    pub open spec fn decode(self, len: usize, timestamp: Duration, now: int) -> (
        DecoderView,
        Action,
    ) {
        (
            DecoderView {
                frames: Seq::empty(),
                decoded: None,
                format: None,
                planes: None,
                allocation: None,
                primed: None,
                ..self
            }.at(
                Phase::Freeing {
                    input: Input { len, timestamp },
                    deadline: (now + BUFFER_TIMEOUT) as u128,
                },
            ),
            Action::DequeueCoded,
        )
    }

    /// Nothing more comes back on the coded queue: take a buffer, if one is free
    /// and the access unit fits in it.
    pub open spec fn freed(self, input: Input, deadline: u128, now: int) -> (DecoderView, Action) {
        if self.coded.free.len() > 0 {
            let index = self.coded.free.first();
            let capacity = self.coded.lengths[index as int][0] as usize;
            let taken = DecoderView { coded: self.coded.taken(), ..self };
            if input.len > capacity {
                // Losing a buffer to a single oversized access unit would shrink the
                // pool for the rest of the stream.
                DecoderView { coded: self.coded.taken().reclaimed(index), ..self }.fail(
                    Error::Oversized { len: input.len, capacity },
                )
            } else {
                (taken.at(Phase::Filling { input, index }), Action::Fill { index })
            }
        } else if now >= deadline {
            self.fail(Error::DecoderStalled)
        } else {
            (self.at(Phase::Starved { input, deadline }), Action::Wait)
        }
    }

    /// The access unit is in. Before the first negotiation there is nowhere for a
    /// picture to go, so the event is worth waiting for. After it, checking costs
    /// one ioctl and a missed resolution change would decode the rest of the
    /// stream at the old geometry.
    pub open spec fn submitted(self, now: int) -> (DecoderView, Action) {
        if self.pictures is Some {
            (self.at(Phase::Checking), Action::TakeSourceChange)
        } else {
            (
                DecoderView {
                    since: match self.since {
                        Some(since) => Some(since),
                        None => Some(now as u64),
                    },
                    ..self
                }.at(Phase::Sizing { deadline: (now + SOURCE_CHANGE_TIMEOUT) as u128 }),
                Action::TakeSourceChange,
            )
        }
    }

    /// How long the stream has gone without a size.
    pub open spec fn waited(self, now: int) -> int {
        if now < self.since->0 {
            0
        } else {
            now - self.since->0
        }
    }

    /// Whether there was a source change.
    pub open spec fn changed(self, changed: bool, now: int) -> (DecoderView, Action) {
        match self.phase {
            Phase::Sizing { deadline } => if changed {
                self.negotiate()
            } else if now < deadline {
                (self.at(Phase::Unsized { deadline }), Action::Wait)
            } else if self.waited(now) >= SOURCE_CHANGE_BUDGET {
                self.fail(Error::SizeUnknown { waited: self.waited(now) as u64 })
            } else {
                self.done()
            },
            Phase::Checking => if changed {
                self.drain(Goal::Tail { deadline: (now + DRAIN_TIMEOUT) as u128 })
            } else {
                self.drain(Goal::Collect)
            },
            _ => self.fail(Error::Refused),
        }
    }

    /// Negotiate the CAPTURE queue against the size the driver has just reported,
    /// giving up the one there was.
    pub open spec fn negotiate(self) -> (DecoderView, Action) {
        if self.pictures is Some {
            (DecoderView { pictures: None, ..self }.at(Phase::Releasing), Action::Release)
        } else {
            (self.at(Phase::Defaulting), Action::GetFormat)
        }
    }

    /// A format came back. The driver's own default need not be one this can lay
    /// out, and then the set it offers for this stream has to be read again.
    pub open spec fn formatted(self, format: Format) -> (DecoderView, Action) {
        let kept = DecoderView { format: Some(format), ..self };
        if self.phase is Defaulting && !is_raw(format.pixelformat) {
            (kept.at(Phase::Listing), Action::ListFormats)
        } else {
            (kept.at(Phase::Measuring), Action::VisibleSize)
        }
    }

    /// The formats on offer came back: ask for one, at the size the driver parsed
    /// out of the stream.
    pub open spec fn offered(self, offered: Seq<u32>) -> (DecoderView, Action) {
        let format = self.format->0;
        match preferred(offered) {
            None => self.fail(Error::NoRawFormat { pixelformat: format.pixelformat }),
            Some(pixelformat) => (
                self.at(Phase::Choosing),
                Action::SetFormat {
                    request: Request {
                        pixelformat,
                        size: format.size,
                        sizeimage: None,
                        color: None,
                    },
                },
            ),
        }
    }

    /// The visible size, which is the coded size from a driver that reports none.
    pub open spec fn visible(self, size: Option<Size>) -> Size {
        match size {
            Some(size) => size,
            None => self.format->0.size,
        }
    }

    /// The visible rectangle came back: lay a picture of it out.
    pub open spec fn measured(self, size: Option<Size>) -> (DecoderView, Action) {
        match layout(&self.format->0, self.visible(size)) {
            Err(err) => self.fail(err),
            Ok(planes) => (
                DecoderView { planes: Some(planes), ..self }.at(Phase::Counting),
                Action::MinimumBuffers,
            ),
        }
    }

    /// The buffers came back.
    pub open spec fn granted(self, count: u32) -> (DecoderView, Action) {
        if count == 0 {
            self.fail(Error::NoBuffers)
        } else {
            let allocation = AllocationView {
                dir: Dir::Capture,
                format: self.format->0,
                count,
                done: Seq::empty(),
                current: None,
            };
            (
                DecoderView { format: None, allocation: Some(allocation), ..self }.at(
                    Phase::Allocating,
                ),
                Action::Allocate { step: allocation.next() },
            )
        }
    }

    /// Another step of mapping them is done.
    pub open spec fn stepped(self, told: Told) -> (DecoderView, Action) {
        let allocation = match told {
            Told::Mapped(length) => self.allocation->0.mapped(length),
            _ => self.allocation->0.queried(),
        };
        if allocation.next() is Done {
            DecoderView {
                allocation: None,
                planes: None,
                primed: Some(
                    PicturesView { queue: allocation.finished(), planes: self.planes->0 },
                ),
                ..self
            }.prime()
        } else {
            (
                DecoderView { allocation: Some(allocation), ..self },
                Action::Allocate { step: allocation.next() },
            )
        }
    }

    /// Hand the next picture buffer to the driver, or start the queue once it has
    /// them all.
    pub open spec fn prime(self) -> (DecoderView, Action) {
        let primed = self.primed->0;
        if primed.queue.free.len() == 0 {
            (self.at(Phase::Starting), Action::StreamPictures)
        } else {
            (
                DecoderView {
                    primed: Some(PicturesView { queue: primed.queue.taken(), ..primed }),
                    ..self
                }.at(Phase::Priming),
                Action::QueuePicture { index: primed.queue.free.first() },
            )
        }
    }

    /// The picture queue is streaming.
    pub open spec fn started(self) -> (DecoderView, Action) {
        let primed = self.primed->0;
        DecoderView {
            pictures: Some(PicturesView { queue: primed.queue.started(), ..primed }),
            primed: None,
            ..self
        }.drain(Goal::Collect)
    }

    /// Take every picture the driver has finished.
    pub open spec fn drain(self, goal: Goal) -> (DecoderView, Action) {
        (self.at(Phase::Collecting { goal }), Action::DequeuePicture)
    }

    /// Nothing more is ready. `ended` says whether the sequence ended.
    ///
    /// A source change is an implicit drain: the driver decodes everything from
    /// before the change, marks the last of it, and only then is the CAPTURE
    /// queue free to be torn down. A tail the driver never finishes is worth less
    /// than the rest of the stream.
    pub open spec fn drained(self, goal: Goal, ended: bool, now: int) -> (DecoderView, Action) {
        match goal {
            Goal::Collect => self.done(),
            Goal::Tail { deadline } => if ended || now >= deadline {
                self.negotiate()
            } else {
                (self.at(Phase::Parked { deadline }), Action::Wait)
            },
        }
    }

    /// The picture a buffer holds, if it is worth taking: a zero-length picture is
    /// the driver marking the end of a sequence, and one flagged bad is garbage
    /// under a valid timestamp.
    pub open spec fn taken(self, buffer: Dequeued, memory: Seq<Seq<u8>>) -> Option<
        Result<Samples, Error>,
    > {
        let planes = self.pictures->0.planes;
        if buffer.bytesused@[0] == 0 || buffer.spec_failed() {
            None
        } else {
            match planes.held(memory) {
                Ok(samples) => Some(Ok((planes.size, samples))),
                Err(err) => Some(Err(err)),
            }
        }
    }

    /// What follows a dequeue from the picture queue. The buffer goes back to the
    /// driver before anything can fail: one left out of the pool is one the decoder
    /// never gets to write again.
    pub open spec fn picture_dequeued(
        self,
        goal: Goal,
        dequeue: Dequeue,
        memory: Option<Seq<Seq<u8>>>,
        now: int,
    ) -> (DecoderView, Action) {
        match dequeue {
            Dequeue::Empty => self.drained(goal, false, now),
            Dequeue::Ended => self.drained(goal, true, now),
            Dequeue::Buffer(buffer) => (
                DecoderView { decoded: self.taken(buffer, memory->0), ..self }.at(
                    Phase::Requeueing { goal, buffer },
                ),
                Action::QueuePicture { index: buffer.index },
            ),
        }
    }

    /// What follows a picture buffer that has gone back to the driver.
    pub open spec fn requeued(self, goal: Goal, buffer: Dequeued, now: int) -> (
        DecoderView,
        Action,
    ) {
        let rest = DecoderView { decoded: None, ..self };
        let micros = stamped(buffer.timestamp);
        match self.decoded {
            Some(Err(err)) => rest.fail(err),
            Some(Ok(_)) if micros > MAX_TIMESTAMP => rest.fail(Error::TimestampRange { micros }),
            _ => {
                let after = match self.decoded {
                    Some(Ok((size, samples))) => DecoderView {
                        frames: self.frames.push(Shown { size, samples, timestamp: micros }),
                        ..rest
                    },
                    _ => rest,
                };
                if buffer.spec_last() {
                    after.drained(goal, true, now)
                } else {
                    after.drain(goal)
                }
            },
        }
    }

    /// What follows an action that was done.
    pub open spec fn proceed(self, now: int) -> (DecoderView, Action) {
        match self.phase {
            Phase::Starved { input, deadline } => (
                self.at(Phase::Freeing { input, deadline }),
                Action::DequeueCoded,
            ),
            Phase::Filling { input, index } => (
                self.at(Phase::Queueing),
                Action::QueueCoded { index, len: input.len as u32, timestamp: input.timestamp },
            ),
            Phase::Queueing => self.submitted(now),
            Phase::Unsized { deadline } => (
                self.at(Phase::Sizing { deadline }),
                Action::TakeSourceChange,
            ),
            Phase::Releasing => self.negotiate(),
            Phase::Allocating => self.stepped(Told::Done),
            Phase::Priming => self.prime(),
            Phase::Starting => self.started(),
            Phase::Requeueing { goal, buffer } => self.requeued(goal, buffer, now),
            Phase::Parked { deadline } => self.drain(Goal::Tail { deadline }),
            _ => self.fail(Error::Refused),
        }
    }

    /// What follows a reply.
    pub open spec fn step(self, told: Told, now: int) -> (DecoderView, Action) {
        match (self.phase, told) {
            (_, Told::Done) => self.proceed(now),
            (Phase::Freeing { .. }, Told::Coded(Dequeue::Buffer(buffer))) => (
                DecoderView { coded: self.coded.reclaimed(buffer.index), ..self },
                Action::DequeueCoded,
            ),
            (Phase::Freeing { input, deadline }, Told::Coded(_)) => self.freed(
                input,
                deadline,
                now,
            ),
            (_, Told::Changed(changed)) => self.changed(changed, now),
            (Phase::Defaulting | Phase::Choosing, Told::Negotiated(format)) => self.formatted(
                format,
            ),
            (Phase::Listing, Told::Offered(offered)) => self.offered(offered),
            (Phase::Measuring, Told::Visible(size)) => self.measured(size),
            (Phase::Counting, Told::Minimum(minimum)) => (
                self.at(Phase::Requesting),
                Action::RequestBuffers { count: picture_count(minimum) },
            ),
            (Phase::Requesting, Told::Granted(count)) => self.granted(count),
            (Phase::Allocating, Told::Mapped(_)) => self.stepped(told),
            (Phase::Collecting { goal }, Told::Picture(dequeue, memory)) => self.picture_dequeued(
                goal,
                dequeue,
                memory,
                now,
            ),
            _ => self.fail(Error::Refused),
        }
    }

    /// Whether the reply answers what was asked, with a buffer of the pool whose
    /// memory comes along, and a format that a driver's answer is believed for
    /// and whose layout this machine can count to.
    pub open spec fn expects(self, told: Told) -> bool {
        match told {
            Told::Refused => !(self.phase is Idle),
            Told::Done => match self.phase {
                Phase::Starved { .. }
                | Phase::Filling { .. }
                | Phase::Queueing
                | Phase::Unsized { .. }
                | Phase::Releasing
                | Phase::Priming
                | Phase::Starting
                | Phase::Requeueing { .. }
                | Phase::Parked { .. } => true,
                Phase::Allocating => self.allocation->0.next() is Query,
                _ => false,
            },
            Told::Coded(dequeue) => {
                &&& self.phase is Freeing
                &&& dequeue matches Dequeue::Buffer(buffer) ==> self.coded.owns(buffer.index)
            },
            Told::Picture(dequeue, memory) => {
                &&& self.phase is Collecting
                &&& dequeue matches Dequeue::Buffer(buffer) ==> {
                    &&& self.pictures->0.queue.owns(buffer.index)
                    &&& memory matches Some(memory)
                    &&& self.pictures->0.planes.addresses(memory)
                }
            },
            Told::Changed(_) => self.phase is Sizing || self.phase is Checking,
            Told::Negotiated(format) => {
                &&& self.phase is Defaulting || self.phase is Choosing
                &&& 1 <= format.planes@.len() <= MAX_PLANES
            },
            Told::Offered(_) => self.phase is Listing,
            Told::Visible(size) => {
                &&& self.phase is Measuring
                &&& self.format->0.countable(self.visible(size))
            },
            Told::Minimum(_) => self.phase is Counting,
            Told::Granted(_) => self.phase is Requesting,
            Told::Mapped(_) => self.phase is Allocating && self.allocation->0.next() is MapPlane,
        }
    }

    /// The picture queue: the one being handed to the driver for the first time,
    /// or else the one in use.
    pub open spec fn picture_queue(self) -> Option<QueueView> {
        match (self.primed, self.pictures) {
            (Some(pictures), _) => Some(pictures.queue),
            (None, Some(pictures)) => Some(pictures.queue),
            (None, None) => None,
        }
    }

    /// Whether a format has as many planes as a driver's answer is believed for.
    pub open spec fn formatted_wf(self) -> bool {
        self.format matches Some(format) && 1 <= format.planes@.len() <= MAX_PLANES
    }

    pub open spec fn wf(self) -> bool {
        &&& self.coded.wf()
        &&& self.coded.dir == Dir::Output
        &&& self.pictures matches Some(pictures) ==> pictures.wf() && self.primed is None
        &&& self.primed is Some ==> self.phase is Priming || self.phase is Starting
        &&& match self.phase {
            Phase::Freeing { input, .. } | Phase::Starved { input, .. } => input.timestamp.wf(),
            Phase::Filling { input, index } => {
                &&& input.timestamp.wf()
                &&& self.coded.owns(index)
                &&& input.len <= self.coded.lengths[index as int][0]
            },
            Phase::Sizing { .. } => self.since is Some && self.pictures is None,
            Phase::Unsized { .. } => self.since is Some && self.pictures is None,
            Phase::Checking | Phase::Collecting { .. } | Phase::Parked { .. } => self.pictures is Some,
            Phase::Requeueing { .. } => {
                &&& self.pictures is Some
                &&& self.decoded matches Some(Err(err)) ==> err is Short
            },
            Phase::Releasing | Phase::Defaulting | Phase::Choosing => self.pictures is None,
            Phase::Listing | Phase::Measuring => self.formatted_wf() && self.pictures is None,
            Phase::Counting | Phase::Requesting => {
                &&& self.formatted_wf()
                &&& self.pictures is None
                &&& self.planes matches Some(planes)
                &&& laid_out(self.format->0, planes.size, planes)
            },
            Phase::Allocating => {
                &&& self.pictures is None
                &&& self.allocation matches Some(allocation)
                &&& allocation.wf()
                &&& allocation.dir == Dir::Capture
                &&& !(allocation.next() is Done)
                &&& self.planes matches Some(planes)
                &&& laid_out(allocation.format, planes.size, planes)
            },
            Phase::Priming | Phase::Starting => {
                &&& self.pictures is None
                &&& self.primed matches Some(primed)
                &&& primed.wf()
            },
            _ => true,
        }
    }
}

/// Copy an access unit into the front of a coded buffer.
pub fn fill(plane: &mut [u8], unit: &[u8])
    requires
        unit@.len() <= old(plane)@.len(),
    ensures
        final(plane)@ == unit@ + old(plane)@.skip(unit@.len() as int),
{
    let ghost before = plane@;
    let len = unit.len();
    let mut at: usize = 0;
    while at < len
        invariant
            len == unit@.len(),
            at <= len <= before.len(),
            plane@ == unit@.take(at as int) + before.skip(at as int),
        decreases len - at,
    {
        plane[at] = unit[at];
        at = at + 1;
        assert(plane@ =~= unit@.take(at as int) + before.skip(at as int));
    }
    assert(unit@.take(at as int) =~= unit@);
}

/// The first of the formats that can be laid out here that is on offer.
fn prefer(offered: &Vec<u32>) -> (code: Option<u32>)
    ensures
        code == preferred(offered@),
{
    let mut at: usize = 0;
    while at < 4
        invariant
            at <= 4,
            forall|i: int| 0 <= i < at ==> !offered@.contains(#[trigger] RAW[i]),
        decreases 4 - at,
    {
        if contains(offered.as_slice(), RAW[at]) {
            return Some(RAW[at]);
        }
        at = at + 1;
    }
    None
}

impl V4l2 {
    pub closed spec fn view(&self) -> DecoderView {
        DecoderView {
            coded: self.coded@,
            pictures: match self.pictures {
                Some(pictures) => Some(pictures@),
                None => None,
            },
            since: self.since,
            frames: shown(self.frames@),
            decoded: match self.decoded {
                Some(Ok(picture)) => Some(Ok((picture.spec_size(), picture@))),
                Some(Err(err)) => Some(Err(err)),
                None => None,
            },
            format: self.format,
            planes: self.planes,
            allocation: match self.allocation {
                Some(allocation) => Some(allocation@),
                None => None,
            },
            primed: match self.primed {
                Some(primed) => Some(primed@),
                None => None,
            },
            phase: self.phase,
        }
    }

    /// A decoder whose coded queue is streaming.
    pub fn new(coded: Queue) -> (decoder: V4l2)
        ensures
            decoder@ == DecoderView::fresh(coded@),
    {
        let decoder = V4l2 {
            coded,
            pictures: None,
            since: None,
            frames: Vec::new(),
            decoded: None,
            format: None,
            planes: None,
            allocation: None,
            primed: None,
            phase: Phase::Idle,
        };
        assert(decoder@.frames =~= Seq::empty());
        decoder
    }

    /// What the decoder is called, for logs and errors.
    pub fn name(&self) -> (name: &'static str)
        ensures
            name@ == "v4l2"@,
    {
        "v4l2"
    }

    /// The pictures the call in progress has produced so far.
    pub fn take_frames(&mut self) -> (frames: Vec<Frame>)
        ensures
            shown(frames@) == old(self)@.frames,
            final(self)@ == (DecoderView { frames: Seq::empty(), ..old(self)@ }),
    {
        let mut frames: Vec<Frame> = Vec::new();
        std::mem::swap(&mut frames, &mut self.frames);
        assert(shown(self.frames@) =~= Seq::empty());
        frames
    }

    fn move_to(&mut self, phase: Phase)
        ensures
            final(self)@ == old(self)@.at(phase),
    {
        self.phase = phase;
    }

    fn fail(&mut self, err: Error) -> (action: Action)
        ensures
            (final(self)@, action) == old(self)@.fail(err),
    {
        self.decoded = None;
        self.format = None;
        self.planes = None;
        self.allocation = None;
        self.primed = None;
        self.phase = Phase::Idle;
        Action::Fail(err)
    }

    fn done(&mut self) -> (action: Action)
        ensures
            (final(self)@, action) == old(self)@.done(),
    {
        self.move_to(Phase::Idle);
        Action::Done
    }

    /// Begin to decode an access unit of `len` bytes.
    pub fn decode(&mut self, len: usize, timestamp: Timestamp, now: u64) -> (action: Action)
        requires
            old(self)@.wf(),
        ensures
            (final(self)@, action) == old(self)@.decode(
                len,
                Duration::of(timestamp@),
                now as int,
            ),
            final(self)@.wf(),
    {
        self.frames.clear();
        self.decoded = None;
        self.format = None;
        self.planes = None;
        self.allocation = None;
        self.primed = None;
        assert(self@.frames =~= Seq::empty());
        let timestamp = Duration::from_micros(timestamp.as_micros() as u64);
        self.move_to(
            Phase::Freeing {
                input: Input { len, timestamp },
                deadline: until(now, BUFFER_TIMEOUT),
            },
        );
        Action::DequeueCoded
    }

    fn freed(&mut self, input: Input, deadline: u128, now: u64) -> (action: Action)
        requires
            old(self)@.coded.wf(),
        ensures
            (final(self)@, action) == old(self)@.freed(input, deadline, now as int),
    {
        if let Some(index) = self.coded.take_free() {
            assert(old(self)@.coded.owns(old(self)@.coded.free[0]));
            let capacity = self.coded.plane_len(index, 0) as usize;
            if input.len > capacity {
                self.coded.reclaim(index);
                self.fail(Error::Oversized { len: input.len, capacity })
            } else {
                self.move_to(Phase::Filling { input, index });
                Action::Fill { index }
            }
        } else if now as u128 >= deadline {
            self.fail(Error::DecoderStalled)
        } else {
            self.move_to(Phase::Starved { input, deadline });
            Action::Wait
        }
    }

    fn submitted(&mut self, now: u64) -> (action: Action)
        ensures
            (final(self)@, action) == old(self)@.submitted(now as int),
    {
        if self.pictures.is_some() {
            self.move_to(Phase::Checking);
        } else {
            if self.since.is_none() {
                self.since = Some(now);
            }
            self.move_to(Phase::Sizing { deadline: until(now, SOURCE_CHANGE_TIMEOUT) });
        }
        Action::TakeSourceChange
    }

    fn waited(&self, now: u64) -> (waited: u64)
        requires
            self@.since is Some,
        ensures
            waited == self@.waited(now as int),
    {
        match self.since {
            Some(since) if now > since => now - since,
            _ => 0,
        }
    }

    fn changed(&mut self, changed: bool, now: u64) -> (action: Action)
        requires
            old(self)@.wf(),
        ensures
            (final(self)@, action) == old(self)@.changed(changed, now as int),
    {
        match self.phase {
            Phase::Sizing { deadline } => {
                if changed {
                    return self.negotiate();
                }
                if (now as u128) < deadline {
                    self.move_to(Phase::Unsized { deadline });
                    return Action::Wait;
                }
                let waited = self.waited(now);
                if waited >= SOURCE_CHANGE_BUDGET {
                    self.fail(Error::SizeUnknown { waited })
                } else {
                    self.done()
                }
            },
            Phase::Checking => {
                if changed {
                    // The pictures decoded before the change are still in the CAPTURE
                    // queue, and the kernel wants them taken before the queue is released.
                    self.drain(Goal::Tail { deadline: until(now, DRAIN_TIMEOUT) })
                } else {
                    self.drain(Goal::Collect)
                }
            },
            _ => self.fail(Error::Refused),
        }
    }

    fn negotiate(&mut self) -> (action: Action)
        ensures
            (final(self)@, action) == old(self)@.negotiate(),
    {
        if self.pictures.is_some() {
            self.pictures = None;
            self.move_to(Phase::Releasing);
            Action::Release
        } else {
            self.move_to(Phase::Defaulting);
            Action::GetFormat
        }
    }

    fn formatted(&mut self, format: Format) -> (action: Action)
        ensures
            (final(self)@, action) == old(self)@.formatted(format),
    {
        let raw = contains(&RAW, format.pixelformat);
        assert(raw == is_raw(format.pixelformat)) by {
            assert(RAW@[0] == RAW[0] && RAW@[1] == RAW[1] && RAW@[2] == RAW[2] && RAW@[3] == RAW[3]);
        }
        self.format = Some(format);
        if matches!(self.phase, Phase::Defaulting) && !raw {
            self.move_to(Phase::Listing);
            Action::ListFormats
        } else {
            self.move_to(Phase::Measuring);
            Action::VisibleSize
        }
    }

    fn offered(&mut self, offered: Vec<u32>) -> (action: Action)
        requires
            old(self)@.format is Some,
        ensures
            (final(self)@, action) == old(self)@.offered(offered@),
    {
        let (size, default) = match &self.format {
            Some(format) => (format.size, format.pixelformat),
            None => (Size::new(0, 0), 0),
        };
        match prefer(&offered) {
            None => self.fail(Error::NoRawFormat { pixelformat: default }),
            Some(pixelformat) => {
                self.move_to(Phase::Choosing);
                Action::SetFormat {
                    request: Request { pixelformat, size, sizeimage: None, color: None },
                }
            },
        }
    }

    fn measured(&mut self, size: Option<Size>) -> (action: Action)
        requires
            old(self)@.format is Some,
            old(self)@.format->0.countable(old(self)@.visible(size)),
        ensures
            (final(self)@, action) == old(self)@.measured(size),
    {
        let planes = match &self.format {
            Some(format) => {
                // The coded size is rounded up to whole macroblocks, so the picture is
                // the compose rectangle inside it. A driver that reports none codes
                // exactly the picture.
                let size = match size {
                    Some(size) => size,
                    None => format.size,
                };
                Planes::new(format, size)
            },
            None => Err(Error::Refused),
        };
        match planes {
            Err(err) => self.fail(err),
            Ok(planes) => {
                self.planes = Some(planes);
                self.move_to(Phase::Counting);
                Action::MinimumBuffers
            },
        }
    }

    fn counted(&mut self, minimum: Option<i32>) -> (action: Action)
        ensures
            final(self)@ == old(self)@.at(Phase::Requesting),
            action == (Action::RequestBuffers { count: picture_count(minimum) }),
    {
        let count = match minimum {
            None => DEFAULT_PICTURES,
            Some(minimum) if minimum < 1 => 1 + SPARE_PICTURES,
            Some(minimum) => minimum as u32 + SPARE_PICTURES,
        };
        self.move_to(Phase::Requesting);
        Action::RequestBuffers { count }
    }

    fn granted(&mut self, count: u32) -> (action: Action)
        requires
            old(self)@.formatted_wf(),
        ensures
            (final(self)@, action) == old(self)@.granted(count),
    {
        match self.format.take() {
            None => self.fail(Error::Refused),
            Some(format) => match Allocation::new(Dir::Capture, format, count) {
                Err(err) => self.fail(err),
                Ok(allocation) => {
                    let step = allocation.next();
                    self.allocation = Some(allocation);
                    self.move_to(Phase::Allocating);
                    Action::Allocate { step }
                },
            },
        }
    }

    fn stepped(&mut self, mapped: Option<u32>) -> (action: Action)
        requires
            old(self)@.wf(),
            old(self)@.phase is Allocating,
            mapped is Some ==> old(self)@.allocation->0.next() is MapPlane,
            mapped is None ==> old(self)@.allocation->0.next() is Query,
        ensures
            (final(self)@, action) == old(self)@.stepped(
                match mapped {
                    Some(length) => Told::Mapped(length),
                    None => Told::Done,
                },
            ),
    {
        match (self.allocation.take(), self.planes) {
            (Some(mut allocation), Some(planes)) => {
                match mapped {
                    Some(length) => allocation.mapped(length),
                    None => allocation.queried(),
                }
                let step = allocation.next();
                if matches!(step, AllocStep::Done) {
                    self.planes = None;
                    self.primed = Some(Pictures { queue: allocation.finish(), planes });
                    self.prime()
                } else {
                    self.allocation = Some(allocation);
                    Action::Allocate { step }
                }
            },
            _ => self.fail(Error::Refused),
        }
    }

    fn prime(&mut self) -> (action: Action)
        requires
            old(self)@.primed is Some,
        ensures
            (final(self)@, action) == old(self)@.prime(),
    {
        match self.primed.take() {
            None => self.fail(Error::Refused),
            Some(mut primed) => {
                let free = primed.queue.take_free();
                self.primed = Some(primed);
                match free {
                    Some(index) => {
                        self.move_to(Phase::Priming);
                        Action::QueuePicture { index }
                    },
                    None => {
                        self.move_to(Phase::Starting);
                        Action::StreamPictures
                    },
                }
            },
        }
    }

    fn started(&mut self) -> (action: Action)
        requires
            old(self)@.primed is Some,
        ensures
            (final(self)@, action) == old(self)@.started(),
    {
        match self.primed.take() {
            None => self.fail(Error::Refused),
            Some(mut primed) => {
                primed.queue.stream_on();
                self.pictures = Some(primed);
                self.drain(Goal::Collect)
            },
        }
    }

    fn drain(&mut self, goal: Goal) -> (action: Action)
        ensures
            (final(self)@, action) == old(self)@.drain(goal),
    {
        self.move_to(Phase::Collecting { goal });
        Action::DequeuePicture
    }

    fn drained(&mut self, goal: Goal, ended: bool, now: u64) -> (action: Action)
        ensures
            (final(self)@, action) == old(self)@.drained(goal, ended, now as int),
    {
        match goal {
            Goal::Collect => self.done(),
            Goal::Tail { deadline } => {
                if ended || now as u128 >= deadline {
                    self.negotiate()
                } else {
                    self.move_to(Phase::Parked { deadline });
                    Action::Wait
                }
            },
        }
    }

    fn picture_dequeued(
        &mut self,
        goal: Goal,
        dequeue: Dequeue,
        memory: Option<&Buffer<'_>>,
        now: u64,
    ) -> (action: Action)
        requires
            old(self)@.pictures is Some,
            old(self)@.pictures->0.wf(),
            dequeue is Buffer ==> memory is Some && old(self)@.pictures->0.planes.addresses(
                memory->0@,
            ),
        ensures
            (final(self)@, action) == old(self)@.picture_dequeued(
                goal,
                dequeue,
                match memory {
                    Some(memory) => Some(memory@),
                    None => None,
                },
                now as int,
            ),
    {
        let buffer = match dequeue {
            Dequeue::Empty => { return self.drained(goal, false, now); },
            Dequeue::Ended => { return self.drained(goal, true, now); },
            Dequeue::Buffer(buffer) => buffer,
        };
        let decoded = if buffer.bytesused[0] == 0 || buffer.failed() {
            None
        } else {
            match (&self.pictures, memory) {
                (Some(pictures), Some(memory)) => {
                    assert(pictures.planes.size.valid()) by {
                        reveal(laid_out);
                    }
                    Some(pictures.planes.read(memory))
                },
                _ => Some(Err(Error::Refused)),
            }
        };
        self.decoded = decoded;
        self.move_to(Phase::Requeueing { goal, buffer });
        Action::QueuePicture { index: buffer.index }
    }

    fn requeued(&mut self, goal: Goal, buffer: Dequeued, now: u64) -> (action: Action)
        ensures
            (final(self)@, action) == old(self)@.requeued(goal, buffer, now as int),
    {
        match self.decoded.take() {
            None => {},
            Some(Err(err)) => { return self.fail(err); },
            Some(Ok(picture)) => match Timestamp::from_micros(stamp(buffer.timestamp)) {
                Err(err) => { return self.fail(err); },
                Ok(timestamp) => {
                    self.frames.push(Frame { picture, timestamp });
                    assert(shown(self.frames@) =~= old(self)@.frames.push(
                        Shown {
                            size: picture.spec_size(),
                            samples: picture@,
                            timestamp: timestamp@,
                        },
                    ));
                },
            },
        }
        if buffer.last() {
            self.drained(goal, true, now)
        } else {
            self.drain(goal)
        }
    }

    fn proceed(&mut self, now: u64) -> (action: Action)
        requires
            old(self)@.wf(),
            old(self)@.expects(Told::Done),
        ensures
            (final(self)@, action) == old(self)@.proceed(now as int),
    {
        match self.phase {
            Phase::Starved { input, deadline } => {
                self.move_to(Phase::Freeing { input, deadline });
                Action::DequeueCoded
            },
            Phase::Filling { input, index } => {
                self.move_to(Phase::Queueing);
                Action::QueueCoded { index, len: input.len as u32, timestamp: input.timestamp }
            },
            Phase::Queueing => self.submitted(now),
            Phase::Unsized { deadline } => {
                self.move_to(Phase::Sizing { deadline });
                Action::TakeSourceChange
            },
            Phase::Releasing => self.negotiate(),
            Phase::Allocating => self.stepped(None),
            Phase::Priming => self.prime(),
            Phase::Starting => self.started(),
            Phase::Requeueing { goal, buffer } => self.requeued(goal, buffer, now),
            Phase::Parked { deadline } => self.drain(Goal::Tail { deadline }),
            _ => self.fail(Error::Refused),
        }
    }

    /// Take in what came of the last action, at `now` nanoseconds, and say what
    /// to do next.
    pub fn step(&mut self, reply: Reply<'_, '_>, now: u64) -> (action: Action)
        requires
            old(self)@.wf(),
            old(self)@.expects(reply@),
        ensures
            (final(self)@, action) == old(self)@.step(reply@, now as int),
            final(self)@.wf(),
    {
        proof {
            lemma_step_keeps_order(self@, reply@, now as int);
        }
        match (self.phase, reply) {
            (_, Reply::Done) => self.proceed(now),
            (Phase::Freeing { input, deadline }, Reply::Coded(dequeue)) => {
                match dequeue.buffer() {
                    Some(buffer) => {
                        self.coded.reclaim(buffer.index);
                        Action::DequeueCoded
                    },
                    None => self.freed(input, deadline, now),
                }
            },
            (_, Reply::Changed(changed)) => self.changed(changed, now),
            (Phase::Defaulting | Phase::Choosing, Reply::Negotiated(format)) => self.formatted(
                format,
            ),
            (Phase::Listing, Reply::Offered(offered)) => self.offered(offered),
            (Phase::Measuring, Reply::Visible(size)) => self.measured(size),
            (Phase::Counting, Reply::Minimum(minimum)) => self.counted(minimum),
            (Phase::Requesting, Reply::Granted(count)) => self.granted(count),
            (Phase::Allocating, Reply::Mapped(length)) => self.stepped(Some(length)),
            (Phase::Collecting { goal }, Reply::Picture(dequeue, memory)) => self.picture_dequeued(
                goal,
                dequeue,
                memory,
                now,
            ),
            _ => self.fail(Error::Refused),
        }
    }

    /// Whether a reply answers what was asked.
    pub fn admits(&self, reply: &Reply<'_, '_>) -> (admits: bool)
        requires
            self@.wf(),
        ensures
            admits == self@.expects(reply@),
    {
        match reply {
            Reply::Refused => !matches!(self.phase, Phase::Idle),
            Reply::Done => match self.phase {
                Phase::Starved { .. }
                | Phase::Filling { .. }
                | Phase::Queueing
                | Phase::Unsized { .. }
                | Phase::Releasing
                | Phase::Priming
                | Phase::Starting
                | Phase::Requeueing { .. }
                | Phase::Parked { .. } => true,
                Phase::Allocating => matches!(self.allocation_step(), Some(AllocStep::Query { .. })),
                _ => false,
            },
            Reply::Coded(dequeue) => matches!(self.phase, Phase::Freeing { .. }) && match dequeue {
                Dequeue::Buffer(buffer) => (buffer.index as u64) < self.coded.count() as u64,
                _ => true,
            },
            Reply::Picture(dequeue, memory) => matches!(self.phase, Phase::Collecting { .. })
                && match dequeue {
                Dequeue::Buffer(buffer) => match (&self.pictures, memory) {
                    (Some(pictures), Some(memory)) => (buffer.index as u64)
                        < pictures.queue.count() as u64 && pictures.planes.reaches(memory),
                    _ => false,
                },
                _ => true,
            },
            Reply::Changed(_) => match self.phase {
                Phase::Sizing { .. } | Phase::Checking => true,
                _ => false,
            },
            Reply::Negotiated(format) => match self.phase {
                Phase::Defaulting | Phase::Choosing => {
                    let planes = format.planes.len();
                    1 <= planes && planes <= MAX_PLANES
                },
                _ => false,
            },
            Reply::Offered(_) => matches!(self.phase, Phase::Listing),
            Reply::Visible(size) => matches!(self.phase, Phase::Measuring) && match &self.format {
                Some(format) => format.counts(
                    match size {
                        Some(size) => *size,
                        None => format.size,
                    },
                ),
                None => false,
            },
            Reply::Minimum(_) => matches!(self.phase, Phase::Counting),
            Reply::Granted(_) => matches!(self.phase, Phase::Requesting),
            Reply::Mapped(_) => matches!(self.phase, Phase::Allocating) && matches!(
                self.allocation_step(),
                Some(AllocStep::MapPlane { .. })
            ),
        }
    }

    fn allocation_step(&self) -> (step: Option<AllocStep>)
        requires
            self@.allocation matches Some(allocation) ==> allocation.wf(),
        ensures
            step == match self@.allocation {
                Some(allocation) => Some(allocation.next()),
                None => None,
            },
    {
        match &self.allocation {
            Some(allocation) => Some(allocation.next()),
            None => None,
        }
    }

    /// What to hand the driver with [`Action::QueueCoded`].
    pub fn coded_submission(&self, index: u32, len: u32, timestamp: Duration) -> (r: Submission)
        requires
            self@.wf(),
            self@.coded.owns(index),
            timestamp.wf(),
        ensures
            r.submits(self@.coded, index, seq![len], timestamp),
    {
        let bytesused: [u32; 1] = [len];
        assert(bytesused@ =~= seq![len]);
        self.coded.queue(index, &bytesused, timestamp)
    }

    /// What to hand the driver with [`Action::QueuePicture`]: an empty buffer.
    pub fn picture_submission(&self, index: u32) -> (r: Option<Submission>)
        requires
            self@.wf(),
            self@.picture_queue() matches Some(queue) ==> queue.wf() && queue.owns(index),
        ensures
            match (r, self@.picture_queue()) {
                (Some(r), Some(queue)) => r.submits(queue, index, seq![0u32, 0, 0], Duration::of(0)),
                (None, None) => true,
                _ => false,
            },
    {
        let bytesused: [u32; 3] = [0, 0, 0];
        assert(bytesused@ =~= seq![0u32, 0, 0]);
        match (&self.primed, &self.pictures) {
            (Some(pictures), _) | (None, Some(pictures)) => Some(
                pictures.queue.queue(index, &bytesused, Duration::zero()),
            ),
            (None, None) => None,
        }
    }
}

pub proof fn lemma_step_keeps_order(decoder: DecoderView, told: Told, now: int)
    requires
        decoder.wf(),
        decoder.expects(told),
    ensures
        decoder.step(told, now).0.wf(),
{
    if told is Visible {
        reveal(laid_out);
    }
}

} // verus!

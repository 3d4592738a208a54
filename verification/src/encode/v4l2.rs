//! Hardware H.264 encode via the V4L2 stateful M2M encoder.
//!
//! Feeds the driver 8-bit 4:2:0 and takes back Annex-B with in-band SPS/PPS
//! ahead of every IDR. The encoder here decides; it asks for one thing of the
//! device at a time with an [`Action`], and is told what came of it with a
//! [`Reply`].

use bytes::Bytes;
use vstd::prelude::*;

use super::pending::{Pending, PendingView};
use crate::error::Error;
use crate::frame::Size;
use crate::payload::{access_unit, bytes_of, coded_bytes, lemma_trimmed_len};
use crate::time::{stamp, stamped, until, Duration, Timestamp, MAX_TIMESTAMP};
use crate::v4l2::format::{Dir, Plane};
use crate::v4l2::planes::{laid_out, Planes};
use crate::v4l2::queue::{Dequeue, Dequeued, Queue, QueueView, Submission};

verus! {

/// How long an encode waits for the driver to hand a raw buffer back before
/// giving up on the frame, in nanoseconds. Reached only if the hardware has
/// stalled: an encoder keeping up returns one within a frame interval.
pub const BUFFER_TIMEOUT: u64 = 500_000_000;

/// How long a flush waits for the codec to hand back an access unit for a frame
/// it has already taken, in nanoseconds.
pub const FLUSH_TIMEOUT: u64 = 500_000_000;

/// How long each [`Action::Wait`] parks for, in nanoseconds. Short enough that
/// the timeouts above are honored closely, long enough not to spin.
pub const POLL_INTERVAL: u64 = 5_000_000;

/// One access unit and when it is shown.
#[derive(Debug)]
pub struct Encoded {
    pub payload: Bytes,
    pub timestamp: Timestamp,
}

/// What an [`Encoded`] holds.
pub struct Unit {
    pub payload: Seq<u8>,
    pub timestamp: u64,
}

impl Encoded {
    pub open spec fn view(&self) -> Unit {
        Unit { payload: bytes_of(self.payload), timestamp: self.timestamp@ }
    }
}

/// What to do next.
#[derive(Clone, Debug, PartialEq, Eq)]
pub enum Action {
    /// Convert the frame to I420.
    Convert,
    /// Dequeue from the raw queue, without blocking.
    DequeueRaw,
    /// Dequeue from the coded queue, without blocking.
    DequeueCoded,
    /// Park until the device has something, or [`POLL_INTERVAL`] elapses.
    Wait,
    /// Copy the converted frame into a raw buffer.
    Write { index: u32 },
    /// Press the force-keyframe control.
    ForceKeyframe,
    /// Queue a raw buffer, as [`V4l2::raw_submission`] says.
    QueueRaw { index: u32, timestamp: Duration },
    /// Queue a coded buffer, as [`V4l2::coded_submission`] says.
    QueueCoded { index: u32 },
    /// Start the raw queue.
    StreamRaw,
    /// Start the coded queue.
    StreamCoded,
    /// Issue `V4L2_ENC_CMD_STOP`.
    Stop,
    /// Issue `V4L2_ENC_CMD_START`.
    Start,
    /// Nothing: the call is over, and [`V4l2::take_output`] has what it produced.
    Done,
    /// Nothing: the call failed.
    Fail(Error),
}

/// What came of an [`Action`].
pub enum Reply<'a> {
    /// It was done.
    Done,
    /// It failed.
    Refused,
    /// What the raw queue gave.
    Raw(Dequeue),
    /// What the coded queue gave, and the first plane of the buffer it gave.
    Coded(Dequeue, &'a [u8]),
}

/// What a [`Reply`] says.
pub enum Told {
    Done,
    Refused,
    Raw(Dequeue),
    Coded(Dequeue, Seq<u8>),
}

impl<'a> Reply<'a> {
    pub open spec fn view(&self) -> Told {
        match self {
            Reply::Done => Told::Done,
            Reply::Refused => Told::Refused,
            Reply::Raw(dequeue) => Told::Raw(*dequeue),
            Reply::Coded(dequeue, memory) => Told::Coded(*dequeue, memory@),
        }
    }
}

/// What a drain is for, which is what decides when it is over.
#[derive(Clone, Copy, Debug, PartialEq, Eq, Structural)]
pub enum Goal {
    /// Take what has finished by now.
    Collect,
    /// The encoder has been told to stop: go on to the end of the sequence, for
    /// as long as access units keep coming. `before` is how many had come when
    /// this round began.
    ToLast { deadline: u128, before: usize },
    /// The encoder cannot be told to stop: go on until it owes nothing.
    WaitOut { deadline: u128, before: usize },
}

/// A frame on its way to the driver.
#[derive(Clone, Copy, Debug, PartialEq, Eq, Structural)]
pub struct Job {
    pub timestamp: Duration,
    pub keyframe: bool,
}

/// What the encoder is in the middle of.
#[derive(Clone, Copy, Debug)]
pub enum Phase {
    /// Nothing.
    Idle,
    /// Converting a frame.
    Converting { job: Job },
    /// Taking back raw buffers, until one is free.
    Freeing { job: Job, deadline: u128 },
    /// Parked because the driver holds every raw buffer.
    Starved { job: Job, deadline: u128 },
    /// Copying a frame into a raw buffer.
    Writing { job: Job, index: u32 },
    /// Asking for a keyframe.
    Forcing { job: Job, index: u32 },
    /// Handing a frame to the driver.
    Queueing { job: Job },
    /// Starting the raw queue.
    StartingRaw,
    /// Handing every coded buffer to the driver.
    Filling,
    /// Starting the coded queue.
    StartingCoded,
    /// Taking back the raw buffers the driver has finished reading.
    Reclaiming { goal: Goal },
    /// Taking access units.
    Collecting { goal: Goal },
    /// Handing a coded buffer back, its payload already copied out.
    Requeueing { goal: Goal, buffer: Dequeued },
    /// Parked because the drain is not over.
    Parked { goal: Goal },
    /// Telling the encoder to stop.
    Stopping,
    /// Telling the encoder to go on.
    Restarting,
}

/// The encoder.
#[derive(Debug)]
pub struct V4l2 {
    /// The OUTPUT queue: raw frames going in.
    raw: Queue,
    /// The CAPTURE queue: coded access units coming back.
    coded: Queue,
    /// Where a raw frame's samples go in a `raw` buffer.
    planes: Planes,
    size: Size,
    /// Frames the driver has taken and not yet answered with an access unit.
    pending: Pending,
    /// Whether the driver takes `VIDIOC_ENCODER_CMD`. Cleared the first time it
    /// refuses one, after which a flush can only take what the codec has already
    /// finished.
    drainable: bool,
    /// Whether the driver takes `V4L2_CID_MPEG_VIDEO_FORCE_KEY_FRAME`. Cleared
    /// the first time it refuses one, which is worth saying once and not per
    /// keyframe.
    keyframes: bool,
    /// Access units the call in progress has produced.
    out: Vec<Encoded>,
    /// The payload of the coded buffer being handed back.
    payload: Option<Bytes>,
    phase: Phase,
}

/// What a [`V4l2`] encoder keeps track of.
#[verifier::ext_equal]
pub struct EncoderView {
    pub raw: QueueView,
    pub coded: QueueView,
    pub planes: Planes,
    pub size: Size,
    pub pending: PendingView,
    pub drainable: bool,
    pub keyframes: bool,
    pub out: Seq<Unit>,
    pub payload: Seq<u8>,
    pub phase: Phase,
}

/// The units an output list holds.
pub open spec fn units(out: Seq<Encoded>) -> Seq<Unit> {
    out.map_values(|encoded: Encoded| encoded@)
}

impl EncoderView {
    /// An encoder that has been given nothing.
    pub open spec fn fresh(raw: QueueView, coded: QueueView, planes: Planes, size: Size) -> EncoderView {
        EncoderView {
            raw,
            coded,
            planes,
            size,
            pending: PendingView::empty(),
            drainable: true,
            keyframes: true,
            out: Seq::empty(),
            payload: Seq::empty(),
            phase: Phase::Idle,
        }
    }

    pub open spec fn at(self, phase: Phase) -> EncoderView {
        EncoderView { phase, ..self }
    }

    /// Give up on the call.
    pub open spec fn fail(self, err: Error) -> (EncoderView, Action) {
        (self.at(Phase::Idle), Action::Fail(err))
    }

    /// End the call with what it produced.
    pub open spec fn done(self) -> (EncoderView, Action) {
        (self.at(Phase::Idle), Action::Done)
    }

    /// Begin to encode a frame, dropping what an earlier call left behind.
    pub open spec fn encode(self, size: Size, timestamp: Duration, keyframe: bool) -> (
        EncoderView,
        Action,
    ) {
        let fresh = EncoderView { out: Seq::empty(), ..self };
        if size != self.size {
            fresh.fail(Error::FrameSize { opened: self.size, given: size })
        } else {
            (fresh.at(Phase::Converting { job: Job { timestamp, keyframe } }), Action::Convert)
        }
    }

    /// Begin to empty the codec's pipeline, dropping what an earlier call left
    /// behind. There is nothing in it before both queues are streaming.
    pub open spec fn flush(self, now: int) -> (EncoderView, Action) {
        let fresh = EncoderView { out: Seq::empty(), ..self };
        if !self.raw.streaming || !self.coded.streaming {
            fresh.done()
        } else if self.drainable {
            (fresh.at(Phase::Stopping), Action::Stop)
        } else {
            fresh.drain(Goal::WaitOut { deadline: (now + FLUSH_TIMEOUT) as u128, before: 0 })
        }
    }

    /// Take back a raw buffer the driver has finished reading. One flagged bad is
    /// one the driver gave up on, so no access unit will ever answer that frame.
    pub open spec fn reclaimed(self, buffer: Dequeued) -> EncoderView {
        EncoderView {
            raw: self.raw.reclaimed(buffer.index),
            pending: if buffer.spec_failed() {
                self.pending.dropped(buffer.timestamp)
            } else {
                self.pending
            },
            ..self
        }
    }

    /// Hand the frame to the driver, in the raw buffer it was copied into.
    pub open spec fn queue_raw(self, job: Job, index: u32) -> (EncoderView, Action) {
        (
            self.at(Phase::Queueing { job }),
            Action::QueueRaw { index, timestamp: job.timestamp },
        )
    }

    /// Hand the next coded buffer to the driver, or start the queue once it has
    /// them all.
    pub open spec fn fill(self) -> (EncoderView, Action) {
        if self.coded.free.len() == 0 {
            (self.at(Phase::StartingCoded), Action::StreamCoded)
        } else {
            (
                EncoderView { coded: self.coded.taken(), ..self }.at(Phase::Filling),
                Action::QueueCoded { index: self.coded.free.first() },
            )
        }
    }

    /// Take everything the driver has finished: raw buffers, then access units.
    pub open spec fn drain(self, goal: Goal) -> (EncoderView, Action) {
        (self.at(Phase::Reclaiming { goal }), Action::DequeueRaw)
    }

    /// Park, and look again.
    pub open spec fn park(self, goal: Goal) -> (EncoderView, Action) {
        (self.at(Phase::Parked { goal }), Action::Wait)
    }

    /// Nothing more is ready. `ended` says whether the driver marked the end of a
    /// sequence.
    ///
    /// Progress earns more time, so a slow encoder finishes a long tail while a
    /// wedged one still gives up after [`FLUSH_TIMEOUT`] of silence.
    pub open spec fn drained(self, goal: Goal, ended: bool, now: int) -> (EncoderView, Action) {
        let owed = self.pending.frames.len() as usize;
        let count = self.out.len() as usize;
        let later = (now + FLUSH_TIMEOUT) as u128;
        match goal {
            Goal::Collect => self.done(),
            Goal::ToLast { deadline, before } => if ended {
                (
                    EncoderView { pending: self.pending.forgotten(), ..self }.at(
                        Phase::Restarting,
                    ),
                    Action::Start,
                )
            } else if count > before {
                self.park(Goal::ToLast { deadline: later, before: count })
            } else if now >= deadline {
                self.fail(Error::DrainStalled { frames: owed })
            } else {
                self.park(Goal::ToLast { deadline, before: count })
            },
            Goal::WaitOut { deadline, before } => if self.pending.frames.len() == 0 {
                self.done()
            } else if count > before {
                self.park(Goal::WaitOut { deadline: later, before: count })
            } else if now >= deadline {
                self.fail(Error::FramesHeld { frames: owed })
            } else {
                self.park(Goal::WaitOut { deadline, before: count })
            },
        }
    }

    /// What a coded buffer that has gone back to the driver came to: the encoder
    /// after it, or why it could not be published.
    pub open spec fn published(self, buffer: Dequeued) -> (EncoderView, Option<Error>) {
        let micros = stamped(buffer.timestamp);
        if buffer.spec_failed() {
            (EncoderView { pending: self.pending.dropped(buffer.timestamp), ..self }, None)
        } else if self.payload.len() == 0 {
            (self, None)
        } else {
            match self.pending.matched(buffer.timestamp, self.payload) {
                (pending, None) => (EncoderView { pending, ..self }, None),
                (pending, Some(payload)) => if micros > MAX_TIMESTAMP {
                    (EncoderView { pending, ..self }, Some(Error::TimestampRange { micros }))
                } else {
                    (
                        EncoderView {
                            pending,
                            out: self.out.push(Unit { payload, timestamp: micros }),
                            ..self
                        },
                        None,
                    )
                },
            }
        }
    }

    /// What follows a coded buffer that has gone back to the driver.
    pub open spec fn requeued(self, goal: Goal, buffer: Dequeued, now: int) -> (
        EncoderView,
        Action,
    ) {
        let (after, err) = self.published(buffer);
        let after = EncoderView { payload: Seq::empty(), ..after };
        match err {
            Some(err) => after.fail(err),
            None => if buffer.spec_last() {
                after.drained(goal, true, now)
            } else {
                (after.at(Phase::Collecting { goal }), Action::DequeueCoded)
            },
        }
    }

    /// What follows an action that was done.
    pub open spec fn proceed(self, now: int) -> (EncoderView, Action) {
        match self.phase {
            Phase::Converting { job } => (
                self.at(Phase::Freeing { job, deadline: (now + BUFFER_TIMEOUT) as u128 }),
                Action::DequeueRaw,
            ),
            Phase::Starved { job, deadline } => (
                self.at(Phase::Freeing { job, deadline }),
                Action::DequeueRaw,
            ),
            Phase::Writing { job, index } => if job.keyframe && self.keyframes {
                (self.at(Phase::Forcing { job, index }), Action::ForceKeyframe)
            } else {
                self.queue_raw(job, index)
            },
            Phase::Forcing { job, index } => self.queue_raw(job, index),
            Phase::Queueing { job } => {
                let taken = EncoderView { pending: self.pending.queued(job.timestamp), ..self };
                if self.raw.streaming {
                    taken.drain(Goal::Collect)
                } else {
                    (taken.at(Phase::StartingRaw), Action::StreamRaw)
                }
            },
            Phase::StartingRaw => EncoderView { raw: self.raw.started(), ..self }.fill(),
            Phase::Filling => self.fill(),
            Phase::StartingCoded => EncoderView { coded: self.coded.started(), ..self }.drain(
                Goal::Collect,
            ),
            Phase::Requeueing { goal, buffer } => self.requeued(goal, buffer, now),
            Phase::Parked { goal } => self.drain(goal),
            Phase::Stopping => self.drain(
                Goal::ToLast { deadline: (now + FLUSH_TIMEOUT) as u128, before: 0 },
            ),
            Phase::Restarting => self.done(),
            _ => self.fail(Error::Refused),
        }
    }

    /// What follows an action that failed. Two may: an encoder that takes no
    /// keyframe request keeps to its own GOP boundary, and one that takes no
    /// command can still be waited out. Neither is asked again.
    pub open spec fn refused(self, now: int) -> (EncoderView, Action) {
        match self.phase {
            Phase::Forcing { job, index } => EncoderView { keyframes: false, ..self }.queue_raw(
                job,
                index,
            ),
            Phase::Stopping => EncoderView { drainable: false, ..self }.drain(
                Goal::WaitOut { deadline: (now + FLUSH_TIMEOUT) as u128, before: 0 },
            ),
            _ => EncoderView { payload: Seq::empty(), ..self }.fail(Error::Refused),
        }
    }

    /// What follows a dequeue from the raw queue.
    pub open spec fn raw_dequeued(self, dequeue: Dequeue, now: int) -> (EncoderView, Action) {
        match (self.phase, dequeue) {
            (_, Dequeue::Buffer(buffer)) => (self.reclaimed(buffer), Action::DequeueRaw),
            (Phase::Freeing { job, deadline }, _) => if self.raw.free.len() > 0 {
                let index = self.raw.free.first();
                (
                    EncoderView { raw: self.raw.taken(), ..self }.at(
                        Phase::Writing { job, index },
                    ),
                    Action::Write { index },
                )
            } else if now >= deadline {
                self.fail(Error::EncoderStalled)
            } else {
                (self.at(Phase::Starved { job, deadline }), Action::Wait)
            },
            (Phase::Reclaiming { goal }, _) => (
                self.at(Phase::Collecting { goal }),
                Action::DequeueCoded,
            ),
            _ => self.fail(Error::Refused),
        }
    }

    /// What follows a dequeue from the coded queue.
    ///
    /// The buffer goes back to the driver before anything can fail: a coded
    /// buffer left out of the pool is one the encoder never gets to write again.
    pub open spec fn coded_dequeued(self, dequeue: Dequeue, memory: Seq<u8>, now: int) -> (
        EncoderView,
        Action,
    ) {
        match (self.phase, dequeue) {
            (Phase::Collecting { goal }, Dequeue::Empty) => self.drained(goal, false, now),
            (Phase::Collecting { goal }, Dequeue::Ended) => self.drained(goal, true, now),
            (Phase::Collecting { goal }, Dequeue::Buffer(buffer)) => (
                EncoderView { payload: coded_bytes(memory, buffer.bytesused@[0]), ..self }.at(
                    Phase::Requeueing { goal, buffer },
                ),
                Action::QueueCoded { index: buffer.index },
            ),
            _ => self.fail(Error::Refused),
        }
    }

    /// What follows a reply.
    pub open spec fn step(self, told: Told, now: int) -> (EncoderView, Action) {
        match told {
            Told::Done => self.proceed(now),
            Told::Refused => self.refused(now),
            Told::Raw(dequeue) => self.raw_dequeued(dequeue, now),
            Told::Coded(dequeue, memory) => self.coded_dequeued(dequeue, memory, now),
        }
    }

    /// Whether the reply answers what was asked, with a buffer of the pool. The
    /// bytes waiting for an access unit and the buffer's own have to fit together
    /// in memory.
    pub open spec fn expects(self, told: Told) -> bool {
        match told {
            Told::Refused => !(self.phase is Idle),
            Told::Done => match self.phase {
                Phase::Idle => false,
                Phase::Freeing { .. } | Phase::Reclaiming { .. } => false,
                Phase::Collecting { .. } => false,
                _ => true,
            },
            Told::Raw(dequeue) => {
                &&& self.phase is Freeing || self.phase is Reclaiming
                &&& dequeue matches Dequeue::Buffer(buffer) ==> self.raw.owns(buffer.index)
            },
            Told::Coded(dequeue, memory) => {
                &&& self.phase is Collecting
                &&& dequeue matches Dequeue::Buffer(buffer) ==> {
                    &&& self.coded.owns(buffer.index)
                    &&& self.pending.header.len() + memory.len() <= isize::MAX
                }
            },
        }
    }

    pub open spec fn wf(self) -> bool {
        &&& self.raw.wf()
        &&& self.coded.wf()
        &&& self.raw.dir == Dir::Output
        &&& self.coded.dir == Dir::Capture
        &&& laid_out(self.raw.format, self.size, self.planes)
        &&& self.phase matches Phase::Requeueing { .. } ==> self.pending.header.len()
            + self.payload.len() <= isize::MAX
        &&& self.phase is Restarting ==> self.pending.frames.len() == 0
        &&& self.phase is Filling ==> self.raw.streaming
        &&& match self.phase {
            Phase::Converting { job }
            | Phase::Freeing { job, .. }
            | Phase::Starved { job, .. }
            | Phase::Queueing { job } => job.timestamp.wf(),
            Phase::Writing { job, index } | Phase::Forcing { job, index } => {
                &&& job.timestamp.wf()
                &&& self.raw.owns(index)
            },
            _ => true,
        }
    }
}

impl V4l2 {
    pub closed spec fn view(&self) -> EncoderView {
        EncoderView {
            raw: self.raw@,
            coded: self.coded@,
            planes: self.planes,
            size: self.size,
            pending: self.pending@,
            drainable: self.drainable,
            keyframes: self.keyframes,
            out: units(self.out@),
            payload: match self.payload {
                Some(payload) => bytes_of(payload),
                None => Seq::empty(),
            },
            phase: self.phase,
        }
    }

    /// An encoder whose queues are allocated and not yet streaming.
    pub fn new(raw: Queue, coded: Queue, planes: Planes, size: Size) -> (encoder: V4l2)
        ensures
            encoder@ == EncoderView::fresh(raw@, coded@, planes, size),
    {
        let encoder = V4l2 {
            raw,
            coded,
            planes,
            size,
            pending: Pending::default(),
            drainable: true,
            keyframes: true,
            out: Vec::new(),
            payload: None,
            phase: Phase::Idle,
        };
        assert(encoder@.out =~= Seq::empty());
        encoder
    }

    /// What the encoder is called, for logs and errors.
    pub fn name(&self) -> (name: &'static str)
        ensures
            name@ == "v4l2"@,
    {
        "v4l2"
    }

    /// What a driver's answer to a new bitrate comes to. Settable on a streaming
    /// encoder and applied without an IDR, which is exactly what a congestion
    /// controller wants; a driver that refuses says so once and is not asked
    /// again.
    pub fn set_bitrate(&self, accepted: bool) -> (r: Result<(), Error>)
        ensures
            r == if accepted {
                Ok(())
            } else {
                Err(Error::BitrateUnsupported)
            },
    {
        if accepted {
            Ok(())
        } else {
            Err(Error::BitrateUnsupported)
        }
    }

    /// Where a frame's samples go in a raw buffer.
    pub fn planes(&self) -> (planes: Planes)
        ensures
            planes == self@.planes,
    {
        self.planes
    }

    /// The access units the call in progress has produced so far.
    pub fn take_output(&mut self) -> (out: Vec<Encoded>)
        ensures
            units(out@) == old(self)@.out,
            final(self)@ == (EncoderView { out: Seq::empty(), ..old(self)@ }),
    {
        let mut out: Vec<Encoded> = Vec::new();
        std::mem::swap(&mut out, &mut self.out);
        assert(units(self.out@) =~= Seq::empty());
        out
    }

    fn move_to(&mut self, phase: Phase)
        ensures
            final(self)@ == old(self)@.at(phase),
    {
        self.phase = phase;
    }

    fn fail(&mut self, err: Error) -> (action: Action)
        ensures
            (final(self)@, action) == old(self)@.fail(err),
    {
        self.move_to(Phase::Idle);
        Action::Fail(err)
    }

    fn done(&mut self) -> (action: Action)
        ensures
            (final(self)@, action) == old(self)@.done(),
    {
        self.move_to(Phase::Idle);
        Action::Done
    }

    /// Begin to encode a frame.
    pub fn encode(&mut self, size: Size, timestamp: Timestamp, keyframe: bool) -> (action: Action)
        requires
            old(self)@.wf(),
        ensures
            (final(self)@, action) == old(self)@.encode(size, Duration::of(timestamp@), keyframe),
            final(self)@.wf(),
    {
        self.out.clear();
        assert(self@ =~= EncoderView { out: Seq::empty(), ..old(self)@ });
        if size != self.size {
            let opened = self.size;
            return self.fail(Error::FrameSize { opened, given: size });
        }
        let timestamp = Duration::from_micros(timestamp.as_micros() as u64);
        self.move_to(Phase::Converting { job: Job { timestamp, keyframe } });
        Action::Convert
    }

    /// Begin to empty the codec's pipeline, leaving it ready for the frames that
    /// follow.
    ///
    /// The kernel's drain sequence, which is the only thing that makes an encoder
    /// release a frame it is still holding: `V4L2_ENC_CMD_STOP`, dequeue CAPTURE
    /// until the buffer flagged `V4L2_BUF_FLAG_LAST`, then `V4L2_ENC_CMD_START`
    /// to resume with all the state from before the drain.
    ///
    /// Waiting is not a substitute for it. An encoder deeper than one-in-one-out
    /// holds those frames until it is told the stream stopped, and a flush falls
    /// on every group boundary, so the first boundary would time out and take the
    /// broadcast with it.
    pub fn flush(&mut self, now: u64) -> (action: Action)
        requires
            old(self)@.wf(),
        ensures
            (final(self)@, action) == old(self)@.flush(now as int),
            final(self)@.wf(),
    {
        self.out.clear();
        assert(self@ =~= EncoderView { out: Seq::empty(), ..old(self)@ });
        if !self.raw.streaming() || !self.coded.streaming() {
            return self.done();
        }
        if self.drainable {
            self.move_to(Phase::Stopping);
            Action::Stop
        } else {
            self.drain(Goal::WaitOut { deadline: until(now, FLUSH_TIMEOUT), before: 0 })
        }
    }

    /// Begin to end the stream, which is one last flush.
    pub fn finish(&mut self, now: u64) -> (action: Action)
        requires
            old(self)@.wf(),
        ensures
            (final(self)@, action) == old(self)@.flush(now as int),
            final(self)@.wf(),
    {
        self.flush(now)
    }

    fn reclaim(&mut self, buffer: Dequeued)
        ensures
            final(self)@ == old(self)@.reclaimed(buffer),
    {
        if buffer.failed() {
            self.pending.dropped(buffer.timestamp);
        }
        self.raw.reclaim(buffer.index);
    }

    fn queue_raw(&mut self, job: Job, index: u32) -> (action: Action)
        ensures
            (final(self)@, action) == old(self)@.queue_raw(job, index),
    {
        self.move_to(Phase::Queueing { job });
        Action::QueueRaw { index, timestamp: job.timestamp }
    }

    fn fill(&mut self) -> (action: Action)
        ensures
            (final(self)@, action) == old(self)@.fill(),
    {
        match self.coded.take_free() {
            Some(index) => {
                self.move_to(Phase::Filling);
                Action::QueueCoded { index }
            },
            None => {
                self.move_to(Phase::StartingCoded);
                Action::StreamCoded
            },
        }
    }

    fn drain(&mut self, goal: Goal) -> (action: Action)
        ensures
            (final(self)@, action) == old(self)@.drain(goal),
    {
        self.move_to(Phase::Reclaiming { goal });
        Action::DequeueRaw
    }

    fn park(&mut self, goal: Goal) -> (action: Action)
        ensures
            (final(self)@, action) == old(self)@.park(goal),
    {
        self.move_to(Phase::Parked { goal });
        Action::Wait
    }

    fn drained(&mut self, goal: Goal, ended: bool, now: u64) -> (action: Action)
        ensures
            (final(self)@, action) == old(self)@.drained(goal, ended, now as int),
    {
        let count = self.out.len();
        assert(count == self@.out.len());
        match goal {
            Goal::Collect => self.done(),
            Goal::ToLast { deadline, before } => {
                if ended {
                    // Frames the driver took and never answered. Left standing they
                    // would make the next drain believe the codec still owes something.
                    self.pending.forget();
                    self.move_to(Phase::Restarting);
                    Action::Start
                } else if count > before {
                    self.park(Goal::ToLast { deadline: until(now, FLUSH_TIMEOUT), before: count })
                } else if now as u128 >= deadline {
                    let frames = self.pending.len();
                    self.fail(Error::DrainStalled { frames })
                } else {
                    self.park(Goal::ToLast { deadline, before: count })
                }
            },
            Goal::WaitOut { deadline, before } => {
                if self.pending.is_empty() {
                    self.done()
                } else if count > before {
                    self.park(Goal::WaitOut { deadline: until(now, FLUSH_TIMEOUT), before: count })
                } else if now as u128 >= deadline {
                    let frames = self.pending.len();
                    self.fail(Error::FramesHeld { frames })
                } else {
                    self.park(Goal::WaitOut { deadline, before: count })
                }
            },
        }
    }

    fn publish(&mut self, buffer: Dequeued) -> (err: Option<Error>)
        requires
            old(self)@.pending.header.len() + old(self)@.payload.len() <= isize::MAX,
        ensures
            ({
                let (after, error) = old(self)@.published(buffer);
                &&& final(self)@ == (EncoderView { payload: Seq::empty(), ..after })
                &&& err == error
            }),
    {
        let payload = match self.payload.take() {
            Some(payload) => payload,
            None => Bytes::copy_from_slice(&[]),
        };
        assert(bytes_of(payload) =~= old(self)@.payload);
        if buffer.failed() {
            // Whatever is in the buffer is not a whole access unit. Publishing it would
            // put a truncated NAL in the middle of the track.
            self.pending.dropped(buffer.timestamp);
            return None;
        }
        if payload.is_empty() {
            return None;
        }
        match self.pending.matched(buffer.timestamp, payload) {
            None => None,
            Some(payload) => {
                // The driver copies the raw buffer's timestamp onto the coded buffer its
                // work came out on, so this is the time of the picture that was encoded
                // rather than of whatever went in last.
                match Timestamp::from_micros(stamp(buffer.timestamp)) {
                    Err(err) => Some(err),
                    Ok(timestamp) => {
                        self.out.push(Encoded { payload, timestamp });
                        assert(units(self.out@) =~= old(self)@.out.push(
                            Unit { payload: bytes_of(payload), timestamp: timestamp@ },
                        ));
                        None
                    },
                }
            },
        }
    }

    fn requeued(&mut self, goal: Goal, buffer: Dequeued, now: u64) -> (action: Action)
        requires
            old(self)@.pending.header.len() + old(self)@.payload.len() <= isize::MAX,
        ensures
            (final(self)@, action) == old(self)@.requeued(goal, buffer, now as int),
    {
        match self.publish(buffer) {
            Some(err) => self.fail(err),
            None => {
                if buffer.last() {
                    self.drained(goal, true, now)
                } else {
                    self.move_to(Phase::Collecting { goal });
                    Action::DequeueCoded
                }
            },
        }
    }

    fn proceed(&mut self, now: u64) -> (action: Action)
        requires
            old(self)@.wf(),
            old(self)@.expects(Told::Done),
        ensures
            (final(self)@, action) == old(self)@.proceed(now as int),
    {
        match self.phase {
            Phase::Converting { job } => {
                self.move_to(Phase::Freeing { job, deadline: until(now, BUFFER_TIMEOUT) });
                Action::DequeueRaw
            },
            Phase::Starved { job, deadline } => {
                self.move_to(Phase::Freeing { job, deadline });
                Action::DequeueRaw
            },
            Phase::Writing { job, index } => {
                if job.keyframe && self.keyframes {
                    // A button control: the value is ignored, the write is the request.
                    // It applies to the next frame queued, so it goes in immediately
                    // before.
                    self.move_to(Phase::Forcing { job, index });
                    Action::ForceKeyframe
                } else {
                    self.queue_raw(job, index)
                }
            },
            Phase::Forcing { job, index } => self.queue_raw(job, index),
            Phase::Queueing { job } => {
                self.pending.queued(job.timestamp);
                if self.raw.streaming() {
                    self.drain(Goal::Collect)
                } else {
                    // bcm2835-codec wants the first OUTPUT buffer queued before
                    // `STREAMON` and the CAPTURE queue started last. The ordering is
                    // legal on every driver, so it is unconditional.
                    self.move_to(Phase::StartingRaw);
                    Action::StreamRaw
                }
            },
            Phase::StartingRaw => {
                self.raw.stream_on();
                self.fill()
            },
            Phase::Filling => self.fill(),
            Phase::StartingCoded => {
                self.coded.stream_on();
                self.drain(Goal::Collect)
            },
            Phase::Requeueing { goal, buffer } => self.requeued(goal, buffer, now),
            Phase::Parked { goal } => self.drain(goal),
            Phase::Stopping => self.drain(
                Goal::ToLast { deadline: until(now, FLUSH_TIMEOUT), before: 0 },
            ),
            // A stopped encoder accepts OUTPUT buffers but does not process them, so
            // without the restart the frames after the boundary would sit in the driver.
            Phase::Restarting => self.done(),
            _ => self.fail(Error::Refused),
        }
    }

    fn refused(&mut self, now: u64) -> (action: Action)
        ensures
            (final(self)@, action) == old(self)@.refused(now as int),
    {
        match self.phase {
            Phase::Forcing { job, index } => {
                self.keyframes = false;
                self.queue_raw(job, index)
            },
            Phase::Stopping => {
                self.drainable = false;
                self.drain(Goal::WaitOut { deadline: until(now, FLUSH_TIMEOUT), before: 0 })
            },
            _ => {
                self.payload = None;
                self.fail(Error::Refused)
            },
        }
    }

    fn raw_dequeued(&mut self, dequeue: Dequeue, now: u64) -> (action: Action)
        ensures
            (final(self)@, action) == old(self)@.raw_dequeued(dequeue, now as int),
    {
        if let Dequeue::Buffer(buffer) = dequeue {
            self.reclaim(buffer);
            return Action::DequeueRaw;
        }
        match self.phase {
            Phase::Freeing { job, deadline } => {
                if let Some(index) = self.raw.take_free() {
                    self.move_to(Phase::Writing { job, index });
                    Action::Write { index }
                } else if now as u128 >= deadline {
                    self.fail(Error::EncoderStalled)
                } else {
                    self.move_to(Phase::Starved { job, deadline });
                    Action::Wait
                }
            },
            Phase::Reclaiming { goal } => {
                self.move_to(Phase::Collecting { goal });
                Action::DequeueCoded
            },
            _ => self.fail(Error::Refused),
        }
    }

    fn coded_dequeued(&mut self, dequeue: Dequeue, memory: &[u8], now: u64) -> (action: Action)
        ensures
            (final(self)@, action) == old(self)@.coded_dequeued(dequeue, memory@, now as int),
    {
        match self.phase {
            Phase::Collecting { goal } => match dequeue {
                Dequeue::Empty => self.drained(goal, false, now),
                Dequeue::Ended => self.drained(goal, true, now),
                Dequeue::Buffer(buffer) => {
                    self.payload = Some(access_unit(memory, buffer.bytesused[0]));
                    self.move_to(Phase::Requeueing { goal, buffer });
                    Action::QueueCoded { index: buffer.index }
                },
            },
            _ => self.fail(Error::Refused),
        }
    }

    /// Whether a reply answers what was asked, with a buffer of the pool.
    pub fn admits(&self, reply: &Reply<'_>) -> (admits: bool)
        ensures
            admits == self@.expects(reply@),
    {
        match reply {
            Reply::Refused => !matches!(self.phase, Phase::Idle),
            Reply::Done => match self.phase {
                Phase::Idle
                | Phase::Freeing { .. }
                | Phase::Reclaiming { .. }
                | Phase::Collecting { .. } => false,
                _ => true,
            },
            Reply::Raw(dequeue) => {
                let asked = match self.phase {
                    Phase::Freeing { .. } | Phase::Reclaiming { .. } => true,
                    _ => false,
                };
                asked && match dequeue {
                    Dequeue::Buffer(buffer) => (buffer.index as u64) < self.raw.count() as u64,
                    _ => true,
                }
            },
            Reply::Coded(dequeue, memory) => {
                matches!(self.phase, Phase::Collecting { .. }) && match dequeue {
                    Dequeue::Buffer(buffer) => (buffer.index as u64) < self.coded.count() as u64
                        && self.pending.has_room(memory.len()),
                    _ => true,
                }
            },
        }
    }

    /// Take in what came of the last action, at `now` nanoseconds, and say what
    /// to do next.
    pub fn step(&mut self, reply: Reply<'_>, now: u64) -> (action: Action)
        requires
            old(self)@.wf(),
            old(self)@.expects(reply@),
        ensures
            (final(self)@, action) == old(self)@.step(reply@, now as int),
            final(self)@.wf(),
    {
        proof {
            lemma_step_keeps_order(self@, reply@, now as int);
        }
        match reply {
            Reply::Done => self.proceed(now),
            Reply::Refused => self.refused(now),
            Reply::Raw(dequeue) => self.raw_dequeued(dequeue, now),
            Reply::Coded(dequeue, memory) => self.coded_dequeued(dequeue, memory, now),
        }
    }

    /// Take in what came of the last action, as [`V4l2::step`] does, if it answers
    /// what was asked. A reply that does not changes nothing.
    pub fn answered(&mut self, reply: Reply<'_>, now: u64) -> (action: Option<Action>)
        requires
            old(self)@.wf(),
        ensures
            match action {
                Some(action) => {
                    &&& old(self)@.expects(reply@)
                    &&& (final(self)@, action) == old(self)@.step(reply@, now as int)
                },
                None => !old(self)@.expects(reply@) && final(self)@ == old(self)@,
            },
            final(self)@.wf(),
    {
        if self.admits(&reply) {
            Some(self.step(reply, now))
        } else {
            None
        }
    }

    /// What to hand the driver with [`Action::QueueRaw`]: the whole of every
    /// plane, stamped with the frame's time.
    pub fn raw_submission(&self, index: u32, timestamp: Duration) -> (r: Submission)
        requires
            self@.wf(),
            self@.raw.owns(index),
            timestamp.wf(),
        ensures
            r.submits(self@.raw, index, sizes(self@.raw.format.planes@), timestamp),
    {
        let format = self.raw.format();
        let mut bytesused: Vec<u32> = Vec::new();
        let mut plane: usize = 0;
        while plane < format.planes.len()
            invariant
                plane <= format.planes@.len(),
                bytesused@ == sizes(format.planes@).subrange(0, plane as int),
            decreases format.planes@.len() - plane,
        {
            bytesused.push(format.planes[plane].sizeimage);
            plane = plane + 1;
            assert(bytesused@ =~= sizes(format.planes@).subrange(0, plane as int));
        }
        assert(bytesused@ =~= sizes(format.planes@));
        self.raw.queue(index, bytesused.as_slice(), timestamp)
    }

    /// What to hand the driver with [`Action::QueueCoded`]: an empty buffer.
    pub fn coded_submission(&self, index: u32) -> (r: Submission)
        requires
            self@.wf(),
            self@.coded.owns(index),
        ensures
            r.submits(self@.coded, index, seq![0u32], Duration::of(0)),
    {
        let bytesused: [u32; 1] = [0];
        assert(bytesused@ =~= seq![0u32]);
        self.coded.queue(index, &bytesused, Duration::zero())
    }
}

/// The buffer sizes of a format's planes.
pub open spec fn sizes(planes: Seq<Plane>) -> Seq<u32> {
    planes.map_values(|plane: Plane| plane.sizeimage)
}

proof fn lemma_step_keeps_order(encoder: EncoderView, told: Told, now: int)
    requires
        encoder.wf(),
        encoder.expects(told),
    ensures
        encoder.step(told, now).0.wf(),
{
    if let Told::Coded(Dequeue::Buffer(buffer), memory) = told {
        let bytesused = buffer.bytesused@[0];
        let used = if bytesused < memory.len() {
            bytesused as int
        } else {
            memory.len() as int
        };
        lemma_trimmed_len(memory.subrange(0, used));
    }
}

/// A raw frame is handed over whole: the driver is told to read all of every plane, which
/// is what it said the plane takes.
pub proof fn law_a_raw_frame_is_handed_over_whole(
    encoder: EncoderView,
    submission: Submission,
    index: u32,
    timestamp: Duration,
    plane: int,
)
    requires
        encoder.wf(),
        encoder.raw.owns(index),
        submission.submits(encoder.raw, index, sizes(encoder.raw.format.planes@), timestamp),
        0 <= plane < encoder.raw.format.planes@.len(),
    ensures
        submission.index == index,
        submission.length == encoder.raw.format.planes@.len(),
        submission.planes@[plane].bytesused == encoder.raw.format.planes@[plane].sizeimage,
        submission.planes@[plane].length == encoder.raw.lengths[index as int][plane],
        submission.sec * 1_000_000 + submission.usec == timestamp.total(),
{
    assert(sizes(encoder.raw.format.planes@)[plane] == encoder.raw.format.planes@[plane].sizeimage);
}

} // verus!

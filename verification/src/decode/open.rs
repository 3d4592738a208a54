//! Setting a V4L2 decoder up: the event that sizes the stream, then the coded
//! queue, already streaming.

use vstd::prelude::*;

use super::v4l2::{DecoderView, V4l2};
use super::Codec;
use crate::error::Error;
use crate::frame::Size;
use crate::v4l2::format::{Dir, Format, Request, MAX_PLANES};
use crate::v4l2::fourcc::H264;
use crate::v4l2::queue::{AllocStep, Allocation, AllocationView, Queue, QueueView};

verus! {

/// Access units the driver may hold at once.
pub const CODED_BUFFERS: u32 = 4;

/// Bytes to reserve per access unit. The catalog does not reach a backend, so
/// there is no resolution to size this from, and one megabyte clears a 1080p
/// keyframe at any bitrate worth sending over a network.
pub const CODED_SIZE: u32 = 1_048_576;

/// The picture size to ask for. The driver reads the real dimensions out of the
/// bitstream; this is only a hint for how large a coded buffer to allocate, which
/// the explicit size overrides anyway.
pub const HINT_WIDTH: u32 = 1920;

pub const HINT_HEIGHT: u32 = 1088;

/// What to do next.
#[derive(Clone, Debug, PartialEq, Eq)]
pub enum Action {
    /// Subscribe to the source change event.
    Subscribe,
    /// Negotiate the coded queue's format.
    SetFormat { request: Request },
    /// Ask the driver for the coded queue's buffers.
    RequestBuffers { count: u32 },
    /// Map what was granted, one plane at a time.
    Allocate { step: AllocStep },
    /// Start the coded queue.
    StreamCoded,
    /// Nothing: the decoder is set up, and [`Opening::finish`] has it.
    Ready,
    /// Nothing: the driver cannot decode this.
    Fail(Error),
}

/// What came of an [`Action`].
#[derive(Debug)]
pub enum Reply {
    /// It was done.
    Done,
    /// It failed.
    Refused,
    /// The format the driver settled on.
    Negotiated(Format),
    /// How many buffers the driver granted.
    Granted(u32),
    /// How many bytes of a plane were mapped.
    Mapped(u32),
}

/// A decoder being set up.
#[derive(Debug)]
pub enum Opening {
    Subscribing,
    Negotiating,
    Requesting { format: Format },
    Allocating { allocation: Allocation },
    Starting { queue: Queue },
    Ready { queue: Queue },
    Failed,
}

/// How far an [`Opening`] has come.
#[verifier::ext_equal]
pub enum OpeningView {
    Subscribing,
    Negotiating,
    Requesting { format: Format },
    Allocating { allocation: AllocationView },
    Starting { queue: QueueView },
    Ready { queue: QueueView },
    Failed,
}

impl OpeningView {
    /// What to do at this stage.
    pub open spec fn asks(self) -> Action {
        match self {
            OpeningView::Subscribing => Action::Subscribe,
            OpeningView::Negotiating => Action::SetFormat {
                request: Request {
                    pixelformat: H264,
                    size: Size { width: HINT_WIDTH, height: HINT_HEIGHT },
                    sizeimage: Some(CODED_SIZE),
                    color: None,
                },
            },
            OpeningView::Requesting { .. } => Action::RequestBuffers { count: CODED_BUFFERS },
            OpeningView::Allocating { allocation } => Action::Allocate { step: allocation.next() },
            OpeningView::Starting { .. } => Action::StreamCoded,
            OpeningView::Ready { .. } => Action::Ready,
            OpeningView::Failed => Action::Fail(Error::Refused),
        }
    }

    pub open spec fn go(self) -> (OpeningView, Action) {
        (self, self.asks())
    }

    pub open spec fn fail(err: Error) -> (OpeningView, Action) {
        (OpeningView::Failed, Action::Fail(err))
    }

    /// Another step of mapping the buffers is done.
    pub open spec fn stepped(allocation: AllocationView) -> (OpeningView, Action) {
        if allocation.next() is Done {
            OpeningView::Starting { queue: allocation.finished() }.go()
        } else {
            OpeningView::Allocating { allocation }.go()
        }
    }

    /// Where setting up goes after a reply. Everything has to land.
    pub open spec fn step(self, reply: Reply) -> (OpeningView, Action) {
        match (self, reply) {
            (OpeningView::Subscribing, Reply::Done) => OpeningView::Negotiating.go(),
            (OpeningView::Negotiating, Reply::Negotiated(format)) => if format.pixelformat != H264 {
                OpeningView::fail(Error::DecoderFormat { pixelformat: format.pixelformat })
            } else {
                OpeningView::Requesting { format }.go()
            },
            (OpeningView::Requesting { format }, Reply::Granted(count)) => if count == 0 {
                OpeningView::fail(Error::NoBuffers)
            } else {
                OpeningView::Allocating {
                    allocation: AllocationView {
                        dir: Dir::Output,
                        format,
                        count,
                        done: Seq::empty(),
                        current: None,
                    },
                }.go()
            },
            (OpeningView::Allocating { allocation }, Reply::Done) => OpeningView::stepped(
                allocation.queried(),
            ),
            (OpeningView::Allocating { allocation }, Reply::Mapped(length)) => OpeningView::stepped(
                allocation.mapped(length),
            ),
            (OpeningView::Starting { queue }, Reply::Done) => OpeningView::Ready {
                queue: queue.started(),
            }.go(),
            _ => OpeningView::fail(Error::Refused),
        }
    }

    /// Whether the reply answers what was asked. A format has as many planes as a
    /// driver's answer is believed for.
    pub open spec fn expects(self, reply: Reply) -> bool {
        match reply {
            Reply::Refused => !(self is Ready || self is Failed),
            Reply::Done => match self {
                OpeningView::Subscribing | OpeningView::Starting { .. } => true,
                OpeningView::Allocating { allocation } => allocation.next() is Query,
                _ => false,
            },
            Reply::Negotiated(format) => self is Negotiating && 1 <= format.planes@.len()
                <= MAX_PLANES,
            Reply::Granted(_) => self is Requesting,
            Reply::Mapped(_) => self matches OpeningView::Allocating { allocation }
                && allocation.next() is MapPlane,
        }
    }

    pub open spec fn wf(self) -> bool {
        match self {
            OpeningView::Requesting { format } => {
                &&& format.pixelformat == H264
                &&& 1 <= format.planes@.len() <= MAX_PLANES
            },
            OpeningView::Allocating { allocation } => {
                &&& allocation.wf()
                &&& allocation.dir == Dir::Output
                &&& !(allocation.next() is Done)
            },
            OpeningView::Starting { queue } => queue.wf() && queue.dir == Dir::Output,
            OpeningView::Ready { queue } => {
                &&& queue.wf()
                &&& queue.dir == Dir::Output
                &&& queue.streaming
            },
            _ => true,
        }
    }
}

impl Opening {
    pub closed spec fn view(&self) -> OpeningView {
        match self {
            Opening::Subscribing => OpeningView::Subscribing,
            Opening::Negotiating => OpeningView::Negotiating,
            Opening::Requesting { format } => OpeningView::Requesting { format: *format },
            Opening::Allocating { allocation } => OpeningView::Allocating {
                allocation: allocation@,
            },
            Opening::Starting { queue } => OpeningView::Starting { queue: queue@ },
            Opening::Ready { queue } => OpeningView::Ready { queue: queue@ },
            Opening::Failed => OpeningView::Failed,
        }
    }

    /// Begin to set up a decoder. Only H.264: the other V4L2 decoders are
    /// stateless, and expect userspace to have parsed the bitstream.
    pub fn open(codec: Codec) -> (r: Result<(Opening, Action), Error>)
        ensures
            match r {
                Ok((opening, action)) => {
                    &&& codec == Codec::H264
                    &&& opening@ == OpeningView::Subscribing
                    &&& action == opening@.asks()
                },
                Err(err) => codec != Codec::H264 && err == Error::H264Only,
            },
    {
        if codec != Codec::H264 {
            return Err(Error::H264Only);
        }
        // Before the first access unit, so the announcement of the stream's size cannot
        // be missed.
        Ok((Opening::Subscribing, Action::Subscribe))
    }

    fn asks(&self) -> (action: Action)
        requires
            self@.wf(),
        ensures
            action == self@.asks(),
    {
        match self {
            Opening::Subscribing => Action::Subscribe,
            Opening::Negotiating => Action::SetFormat {
                request: Request {
                    pixelformat: H264,
                    size: Size::new(HINT_WIDTH, HINT_HEIGHT),
                    sizeimage: Some(CODED_SIZE),
                    color: None,
                },
            },
            Opening::Requesting { .. } => Action::RequestBuffers { count: CODED_BUFFERS },
            Opening::Allocating { allocation } => Action::Allocate { step: allocation.next() },
            // Started immediately, unlike an encoder's: a stateful decoder has to be
            // consuming before it can parse a stream and report its size.
            Opening::Starting { .. } => Action::StreamCoded,
            Opening::Ready { .. } => Action::Ready,
            Opening::Failed => Action::Fail(Error::Refused),
        }
    }

    fn stepped(allocation: Allocation) -> (next: Opening)
        requires
            allocation@.wf(),
            allocation@.dir == Dir::Output,
        ensures
            next@ == OpeningView::stepped(allocation@).0,
            next@.wf(),
            !(next is Failed),
    {
        if matches!(allocation.next(), AllocStep::Done) {
            Opening::Starting { queue: allocation.finish() }
        } else {
            Opening::Allocating { allocation }
        }
    }

    /// Take in what came of the last action, and say what to do next.
    pub fn step(self, reply: Reply) -> (r: (Opening, Action))
        requires
            self@.wf(),
            self@.expects(reply),
        ensures
            (r.0@, r.1) == self@.step(reply),
            r.0@.wf(),
    {
        let next = match (self, reply) {
            (Opening::Subscribing, Reply::Done) => Opening::Negotiating,
            (Opening::Negotiating, Reply::Negotiated(format)) => {
                if format.pixelformat != H264 {
                    let err = Error::DecoderFormat { pixelformat: format.pixelformat };
                    return (Opening::Failed, Action::Fail(err));
                }
                Opening::Requesting { format }
            },
            (Opening::Requesting { format }, Reply::Granted(count)) => {
                match Allocation::new(Dir::Output, format, count) {
                    Ok(allocation) => Opening::Allocating { allocation },
                    Err(err) => { return (Opening::Failed, Action::Fail(err)); },
                }
            },
            (Opening::Allocating { mut allocation }, Reply::Done) => {
                allocation.queried();
                Opening::stepped(allocation)
            },
            (Opening::Allocating { mut allocation }, Reply::Mapped(length)) => {
                allocation.mapped(length);
                Opening::stepped(allocation)
            },
            (Opening::Starting { mut queue }, Reply::Done) => {
                queue.stream_on();
                Opening::Ready { queue }
            },
            _ => { return (Opening::Failed, Action::Fail(Error::Refused)); },
        };
        let action = next.asks();
        (next, action)
    }

    /// Whether a reply answers what was asked.
    pub fn admits(&self, reply: &Reply) -> (admits: bool)
        requires
            self@.wf(),
        ensures
            admits == self@.expects(*reply),
    {
        match (self, reply) {
            (Opening::Ready { .. } | Opening::Failed, _) => false,
            (_, Reply::Refused) => true,
            (Opening::Subscribing | Opening::Starting { .. }, Reply::Done) => true,
            (Opening::Allocating { allocation }, Reply::Done) => matches!(
                allocation.next(),
                AllocStep::Query { .. }
            ),
            (Opening::Allocating { allocation }, Reply::Mapped(_)) => matches!(
                allocation.next(),
                AllocStep::MapPlane { .. }
            ),
            (Opening::Negotiating, Reply::Negotiated(format)) => {
                let planes = format.planes.len();
                1 <= planes && planes <= MAX_PLANES
            },
            (Opening::Requesting { .. }, Reply::Granted(_)) => true,
            _ => false,
        }
    }

    /// The decoder, once it is set up.
    pub fn finish(self) -> (decoder: Option<V4l2>)
        requires
            self@.wf(),
        ensures
            match (decoder, self@) {
                (Some(decoder), OpeningView::Ready { queue }) => {
                    &&& decoder@ == DecoderView::fresh(queue)
                    &&& decoder@.wf()
                },
                (None, OpeningView::Ready { .. }) => false,
                (Some(_), _) => false,
                (None, _) => true,
            },
    {
        match self {
            Opening::Ready { queue } => Some(V4l2::new(queue)),
            _ => None,
        }
    }
}

/// Setting a decoder up is one thing after another, and each has to land: the event that
/// sizes the stream is subscribed to, the coded queue is negotiated as H.264 with a
/// mebibyte for each access unit, four buffers of it are asked for and as many as are
/// granted mapped, and the queue is started. Then the decoder is ready.
pub proof fn law_how_a_decoder_is_set_up(opening: OpeningView, format: Format, granted: u32)
    ensures
        opening is Subscribing ==> {
            &&& opening.asks() is Subscribe
            &&& opening.step(Reply::Done).0 is Negotiating
        },
        opening is Negotiating ==> {
            let (next, action) = opening.step(Reply::Negotiated(format));
            &&& opening.asks() == (Action::SetFormat {
                request: Request {
                    pixelformat: H264,
                    size: Size { width: 1920, height: 1088 },
                    sizeimage: Some(0x10_0000),
                    color: None,
                },
            })
            &&& format.pixelformat == H264 ==> next == (OpeningView::Requesting { format })
            &&& format.pixelformat != H264 ==> action == Action::Fail(
                Error::DecoderFormat { pixelformat: format.pixelformat },
            )
        },
        opening == (OpeningView::Requesting { format }) ==> {
            let (next, action) = opening.step(Reply::Granted(granted));
            &&& opening.asks() == (Action::RequestBuffers { count: 4 })
            &&& granted == 0 ==> action == Action::Fail(Error::NoBuffers)
            &&& granted > 0 ==> {
                &&& action == (Action::Allocate { step: AllocStep::Query { index: 0 } })
                &&& next matches OpeningView::Allocating { allocation }
                &&& allocation.count == granted
                &&& allocation.dir == Dir::Output
                &&& allocation.format == format
                &&& allocation.done.len() == 0
            }
        },
        opening matches OpeningView::Starting { queue } ==> {
            &&& opening.asks() is StreamCoded
            &&& opening.step(Reply::Done).0 == (OpeningView::Ready {
                queue: QueueView { streaming: true, ..queue },
            })
            &&& opening.step(Reply::Done).1 is Ready
        },
        opening.step(Reply::Refused).1 == Action::Fail(Error::Refused),
{
}

/// Mapping ends in a start, of a queue that has every buffer that was mapped, all of them
/// free.
pub proof fn law_what_is_mapped_is_started(allocation: AllocationView, length: u32)
    requires
        allocation.wf(),
    ensures
        ({
            let opening = OpeningView::Allocating { allocation };
            let (mapped, asked) = opening.step(Reply::Mapped(length));
            &&& opening.asks() == (Action::Allocate { step: allocation.next() })
            &&& allocation.next() is MapPlane ==> {
                ||| mapped is Allocating && asked is Allocate
                ||| {
                    &&& asked is StreamCoded
                    &&& mapped matches OpeningView::Starting { queue }
                    &&& queue.lengths.len() == allocation.count
                    &&& queue.free.len() == allocation.count
                    &&& queue.lengths.last() == allocation.current->0.push(length)
                    &&& queue.lengths.drop_last() == allocation.done
                    &&& queue.format == allocation.format
                    &&& queue.dir == allocation.dir
                    &&& !queue.streaming
                }
            }
            &&& allocation.next() is Query ==> opening.step(Reply::Done).0 is Allocating
        }),
{
    if allocation.next() is MapPlane {
        assert(allocation.done.push(allocation.current->0.push(length)).drop_last()
            =~= allocation.done);
    }
}

/// A decoder being set up takes every answer to what it asked.
pub proof fn law_every_answer_is_taken(opening: OpeningView, format: Format, granted: u32)
    ensures
        !(opening is Ready) && !(opening is Failed) ==> opening.expects(Reply::Refused),
        opening is Subscribing || opening is Starting ==> opening.expects(Reply::Done),
        opening is Negotiating && 1 <= format.planes@.len() <= 3 ==> opening.expects(
            Reply::Negotiated(format),
        ),
        opening is Requesting ==> opening.expects(Reply::Granted(granted)),
        opening matches OpeningView::Allocating { allocation } ==> {
            &&& allocation.next() is Query ==> opening.expects(Reply::Done)
            &&& allocation.next() is MapPlane ==> opening.expects(Reply::Mapped(granted))
        },
{
}

/// A decoder being set up takes nothing but an answer to what it asked, and nothing once it
/// is ready or has failed.
pub proof fn law_only_an_answer_is_taken(opening: OpeningView, reply: Reply)
    requires
        opening.expects(reply),
    ensures
        !(opening is Ready) && !(opening is Failed),
        match reply {
            Reply::Refused => true,
            Reply::Done => opening is Subscribing || opening is Starting || opening is Allocating,
            Reply::Negotiated(format) => opening is Negotiating && 1 <= format.planes@.len() <= 3,
            Reply::Granted(_) => opening is Requesting,
            Reply::Mapped(_) => opening is Allocating,
        },
{
}

} // verus!

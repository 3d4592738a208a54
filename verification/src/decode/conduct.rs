//! What the decoder does for its caller, told by what it asks for and what it is answered.

use vstd::prelude::*;

use super::laws::{after, answers, Heard};
use super::v4l2::{Action, DecoderView, Goal, Input, Phase, Shown, Told};
use crate::error::Error;
use crate::frame::Size;
use crate::time::Duration;
use crate::v4l2::format::{Format, Request};
use crate::v4l2::fourcc::{NV12, NV12M, YUV420, YUV420M};
use crate::v4l2::planes::layout;
use crate::v4l2::queue::{AllocStep, Dequeue, Dequeued, QueueView, FLAG_ERROR, FLAG_LAST};

verus! {

/// Half a second, in nanoseconds.
pub const HALF_A_SECOND: u64 = 500_000_000;

/// A quarter of a second, in nanoseconds.
pub const A_QUARTER_SECOND: u64 = 250_000_000;

/// Five seconds, in nanoseconds.
pub const FIVE_SECONDS: u64 = 5_000_000_000;

/// The last time that can be sent, in microseconds.
pub const LAST_TIME: u64 = 0x3fff_ffff_ffff_ffff;

/// Whether everything the decoder has of a picture size is `size`: the layout being
/// negotiated, the picture queue, the picture in hand, and every frame but the first
/// `before`.
pub open spec fn sized(decoder: DecoderView, size: Size, before: nat) -> bool {
    &&& decoder.planes matches Some(planes) ==> planes.size == size
    &&& decoder.primed matches Some(primed) ==> primed.planes.size == size
    &&& decoder.pictures matches Some(pictures) ==> pictures.planes.size == size
    &&& decoder.decoded matches Some(Ok((of, _))) ==> of == size
    &&& forall|i: int|
        before <= i < decoder.frames.len() ==> (#[trigger] decoder.frames[i]).size == size
}

/// The pictures have exactly the size of the visible rectangle the driver reports, and
/// the size it codes only when it reports none. From the moment the rectangle is read
/// until the next one is, the picture queue is laid out for that size and every frame
/// has it.
#[verifier::spinoff_prover]
#[verifier::rlimit(40)]
pub proof fn law_pictures_have_the_visible_size(
    decoder: DecoderView,
    len: usize,
    timestamp: Duration,
    since: int,
    replies: Seq<Heard>,
    at: int,
)
    requires
        answers(decoder.decode(len, timestamp, since), replies),
        0 <= at < replies.len(),
        replies[at].told is Visible,
        forall|i: int| at < i < replies.len() ==> !((#[trigger] replies[i]).told is Visible),
    ensures
        ({
            let begun = decoder.decode(len, timestamp, since);
            let before = after(begun, replies.take(at)).0;
            let now = after(begun, replies).0;
            &&& at > 0
            &&& after(begun, replies.take(at)).1 is VisibleSize
            &&& replies[at - 1].told matches Told::Negotiated(format)
            &&& replies[at].told matches Told::Visible(visible)
            &&& sized(
                now,
                match visible {
                    Some(size) => size,
                    None => format.size,
                },
                before.frames.len(),
            )
        }),
    decreases replies.len(),
{
    let begun = decoder.decode(len, timestamp, since);
    let earlier = replies.drop_last();
    if at == replies.len() - 1 {
        assert(replies.take(at) =~= earlier);
        lemma_measuring(decoder, len, timestamp, since, earlier);
        assert(earlier.last() == replies[at - 1]);
    } else {
        assert(replies.take(at) =~= earlier.take(at));
        assert(earlier[at] == replies[at]);
        assert forall|i: int| at < i < earlier.len() implies !((#[trigger] earlier[i]).told
            is Visible) by {
            assert(earlier[i] == replies[i]);
        }
        law_pictures_have_the_visible_size(decoder, len, timestamp, since, earlier, at);
        lemma_measuring(decoder, len, timestamp, since, earlier);
        assert(earlier[at - 1] == replies[at - 1]);
        let size = match replies[at].told {
            Told::Visible(Some(size)) => size,
            _ => replies[at - 1].told->Negotiated_0.size,
        };
        lemma_sized_step(
            after(begun, earlier),
            replies,
            size,
            after(begun, replies.take(at)).0.frames.len(),
        );
    }
}

/// Whether there are no pictures while a picture queue is negotiated, and the rectangle
/// is read right after the format.
spec fn measuring(state: (DecoderView, Action), replies: Seq<Heard>) -> bool {
    match state.0.phase {
        Phase::Releasing
        | Phase::Defaulting
        | Phase::Listing
        | Phase::Choosing => empty_handed(state.0),
        Phase::Measuring => {
            &&& empty_handed(state.0)
            &&& state.1 is VisibleSize
            &&& replies.len() > 0
            &&& replies.last().told matches Told::Negotiated(format)
            &&& state.0.format == Some(format)
        },
        Phase::Collecting { .. } | Phase::Parked { .. } | Phase::Checking => {
            &&& state.0.pictures is Some
            &&& state.0.planes is None
            &&& state.0.primed is None
            &&& state.0.decoded is None
        },
        Phase::Requeueing { .. } => {
            &&& state.0.pictures is Some
            &&& state.0.planes is None
            &&& state.0.primed is None
        },
        Phase::Sizing { .. } | Phase::Unsized { .. } => empty_handed(state.0),
        Phase::Queueing
        | Phase::Filling { .. }
        | Phase::Freeing { .. }
        | Phase::Starved { .. } => {
            &&& state.0.planes is None
            &&& state.0.primed is None
            &&& state.0.decoded is None
        },
        Phase::Counting | Phase::Requesting | Phase::Allocating => {
            &&& state.0.pictures is None
            &&& state.0.planes is Some
            &&& state.0.primed is None
            &&& state.0.decoded is None
        },
        Phase::Priming | Phase::Starting => {
            &&& state.0.pictures is None
            &&& state.0.planes is None
            &&& state.0.primed is Some
            &&& state.0.decoded is None
        },
        Phase::Idle => true,
    }
}

spec fn empty_handed(decoder: DecoderView) -> bool {
    &&& decoder.pictures is None
    &&& decoder.planes is None
    &&& decoder.primed is None
    &&& decoder.decoded is None
}

proof fn lemma_measuring(
    decoder: DecoderView,
    len: usize,
    timestamp: Duration,
    since: int,
    replies: Seq<Heard>,
)
    requires
        answers(decoder.decode(len, timestamp, since), replies),
    ensures
        measuring(after(decoder.decode(len, timestamp, since), replies), replies),
    decreases replies.len(),
{
    if replies.len() > 0 {
        let earlier = replies.drop_last();
        lemma_measuring(decoder, len, timestamp, since, earlier);
        lemma_measuring_step(after(decoder.decode(len, timestamp, since), earlier), replies);
    }
}

#[verifier::spinoff_prover]
#[verifier::rlimit(40)]
proof fn lemma_measuring_step(state: (DecoderView, Action), replies: Seq<Heard>)
    requires
        replies.len() > 0,
        measuring(state, replies.drop_last()),
        state.0.expects(replies.last().told),
    ensures
        measuring(state.0.step(replies.last().told, replies.last().now), replies),
{
}

#[verifier::spinoff_prover]
#[verifier::rlimit(40)]
proof fn lemma_sized_step(
    state: (DecoderView, Action),
    replies: Seq<Heard>,
    size: Size,
    before: nat,
)
    requires
        replies.len() > 0,
        measuring(state, replies.drop_last()),
        state.0.expects(replies.last().told),
        !(replies.last().told is Visible),
        sized(state.0, size, before),
    ensures
        sized(state.0.step(replies.last().told, replies.last().now).0, size, before),
{
}

/// A picture queue keeps its size for as long as no other rectangle is read, through as
/// many calls as that takes: every frame of such a call has it.
pub proof fn law_pictures_keep_their_size(
    decoder: DecoderView,
    len: usize,
    timestamp: Duration,
    since: int,
    replies: Seq<Heard>,
    size: Size,
)
    requires
        decoder.pictures matches Some(pictures) ==> pictures.planes.size == size,
        answers(decoder.decode(len, timestamp, since), replies),
        forall|i: int| 0 <= i < replies.len() ==> !((#[trigger] replies[i]).told is Visible),
    ensures
        sized(after(decoder.decode(len, timestamp, since), replies).0, size, 0),
    decreases replies.len(),
{
    if replies.len() > 0 {
        let earlier = replies.drop_last();
        assert forall|i: int| 0 <= i < earlier.len() implies !((#[trigger] earlier[i]).told
            is Visible) by {
            assert(earlier[i] == replies[i]);
        }
        law_pictures_keep_their_size(decoder, len, timestamp, since, earlier, size);
        lemma_measuring(decoder, len, timestamp, since, earlier);
        lemma_sized_step(
            after(decoder.decode(len, timestamp, since), earlier),
            replies,
            size,
            0,
        );
    }
}

/// The rectangle decides the layout: it is the one of a picture of exactly that size in
/// the negotiated format, and what cannot be laid out fails the call with the reason.
pub proof fn law_the_rectangle_is_laid_out(decoder: DecoderView, visible: Option<Size>, now: int)
    requires
        decoder.phase is Measuring,
        decoder.format is Some,
    ensures
        ({
            let size = match visible {
                Some(size) => size,
                None => decoder.format->0.size,
            };
            let (next, action) = decoder.step(Told::Visible(visible), now);
            match layout(&decoder.format->0, size) {
                Ok(planes) => {
                    &&& planes.size == size
                    &&& next.planes == Some(planes)
                    &&& action is MinimumBuffers
                    &&& next.phase is Counting
                },
                Err(err) => action == Action::Fail(err),
            }
        }),
{
}

/// A call begins with nothing of the one before it, and gives the driver half a second
/// to take the access unit.
pub proof fn law_how_a_decode_begins(
    decoder: DecoderView,
    len: usize,
    timestamp: Duration,
    now: int,
)
    requires
        0 <= now <= u64::MAX,
    ensures
        ({
            let (next, action) = decoder.decode(len, timestamp, now);
            &&& action is DequeueCoded
            &&& next.phase == (Phase::Freeing {
                input: Input { len, timestamp },
                deadline: (now + HALF_A_SECOND) as u128,
            })
            &&& next.frames.len() == 0
            &&& next.decoded is None
            &&& next.coded == decoder.coded
            &&& next.pictures == decoder.pictures
            &&& next.since == decoder.since
        }),
{
}

/// Every coded buffer the driver gives back is free again, last in line, and the driver
/// is asked for more.
pub proof fn law_coded_buffers_are_taken_back(decoder: DecoderView, buffer: Dequeued, now: int)
    requires
        decoder.phase is Freeing,
    ensures
        ({
            let (next, action) = decoder.step(Told::Coded(Dequeue::Buffer(buffer)), now);
            &&& action is DequeueCoded
            &&& next.phase == decoder.phase
            &&& next.coded.free == decoder.coded.free.push(buffer.index)
            &&& next.pictures == decoder.pictures
            &&& next.frames == decoder.frames
        }),
{
}

/// An access unit goes into the first free buffer there is, as soon as the driver has no
/// more to give back, if it fits: up to every byte of the buffer. One that does not fails
/// the call. Without a free buffer it waits, until half a second after the call began.
pub proof fn law_a_unit_goes_into_the_first_free_buffer(
    decoder: DecoderView,
    input: Input,
    deadline: u128,
    dequeue: Dequeue,
    now: int,
)
    requires
        decoder.coded.wf(),
        decoder.phase == (Phase::Freeing { input, deadline }),
        !(dequeue is Buffer),
    ensures
        ({
            let (next, action) = decoder.step(Told::Coded(dequeue), now);
            let free = decoder.coded.free;
            if free.len() > 0 {
                let capacity = decoder.coded.lengths[free[0] as int][0] as int;
                if input.len <= capacity {
                    &&& action == (Action::Fill { index: free[0] })
                    &&& next.phase == (Phase::Filling { input, index: free[0] })
                    &&& next.coded.free == free.subrange(1, free.len() as int)
                } else {
                    &&& action matches Action::Fail(Error::Oversized { len, capacity: most })
                    &&& len == input.len && most == capacity
                }
            } else if now >= deadline {
                action == Action::Fail(Error::DecoderStalled)
            } else {
                &&& action is Wait
                &&& next.phase == (Phase::Starved { input, deadline })
            }
        }),
{
}

/// An access unit that has been copied goes to the driver whole and under its own time,
/// and every one of them is followed by a look for a change of size. The first one starts
/// the clock on a stream that has no size yet.
pub proof fn law_a_copied_unit_is_handed_over(decoder: DecoderView, now: int)
    requires
        0 <= now <= u64::MAX,
    ensures
        decoder.phase matches Phase::Filling { input, index } ==> input.len <= u32::MAX ==> {
            let (next, action) = decoder.step(Told::Done, now);
            &&& action matches Action::QueueCoded { index: to, len, timestamp }
            &&& to == index && len == input.len && timestamp == input.timestamp
            &&& next.phase is Queueing
        },
        decoder.phase is Queueing ==> {
            let (next, action) = decoder.step(Told::Done, now);
            &&& action is TakeSourceChange
            &&& decoder.pictures is Some ==> next.phase is Checking && next.since == decoder.since
            &&& decoder.pictures is None ==> {
                &&& next.phase matches Phase::Sizing { deadline }
                &&& deadline == now + A_QUARTER_SECOND
                &&& next.since matches Some(since)
                &&& since == if decoder.since is Some {
                    decoder.since->0 as int
                } else {
                    now
                }
            }
        },
        decoder.phase matches Phase::Starved { input, deadline } ==> decoder.step(Told::Done, now)
            == (
            DecoderView { phase: Phase::Freeing { input, deadline }, ..decoder },
            Action::DequeueCoded,
        ),
        decoder.phase matches Phase::Unsized { deadline } ==> decoder.step(Told::Done, now) == (
            DecoderView { phase: Phase::Sizing { deadline }, ..decoder },
            Action::TakeSourceChange,
        ),
{
}

/// The first change of size is what a picture queue is made from. Without one the call
/// waits a quarter of a second and then ends with nothing, until the stream has gone five
/// seconds without a size: then it fails, saying how long.
pub proof fn law_a_size_is_waited_for(decoder: DecoderView, deadline: u128, since: u64, now: int)
    requires
        decoder.phase == (Phase::Sizing { deadline }),
        decoder.since == Some(since),
        decoder.pictures is None,
        since <= now <= u64::MAX,
    ensures
        decoder.step(Told::Changed(true), now).1 is GetFormat,
        ({
            let (next, action) = decoder.step(Told::Changed(false), now);
            &&& next.frames == decoder.frames
            &&& now < deadline ==> action is Wait && next.phase == (Phase::Unsized { deadline })
            &&& now >= deadline && now - since >= FIVE_SECONDS ==> {
                &&& action matches Action::Fail(Error::SizeUnknown { waited })
                &&& waited == now - since
            }
            &&& now >= deadline && now - since < FIVE_SECONDS ==> action is Done
        }),
{
}

/// A later change of size is answered once every picture from before it is in, for half
/// a second at most. Without one the call takes what has finished.
pub proof fn law_a_change_waits_for_the_pictures_before_it(
    decoder: DecoderView,
    changed: bool,
    now: int,
)
    requires
        decoder.phase is Checking,
        0 <= now <= u64::MAX,
    ensures
        ({
            let (next, action) = decoder.step(Told::Changed(changed), now);
            &&& action is DequeuePicture
            &&& next.pictures == decoder.pictures
            &&& next.phase == (Phase::Collecting {
                goal: if changed {
                    Goal::Tail { deadline: (now + HALF_A_SECOND) as u128 }
                } else {
                    Goal::Collect
                },
            })
        }),
{
}

/// A drain takes pictures until there are no more. One that is for a change of size goes
/// on to the end of the sequence, or the deadline, and then gives the queue up; any other
/// ends the call.
pub proof fn law_when_a_drain_is_over(decoder: DecoderView, goal: Goal, ended: bool, now: int)
    requires
        decoder.phase == (Phase::Collecting { goal }),
        decoder.pictures is Some,
    ensures
        ({
            let told = if ended {
                Told::Picture(Dequeue::Ended, None)
            } else {
                Told::Picture(Dequeue::Empty, None)
            };
            let (next, action) = decoder.step(told, now);
            &&& next.frames == decoder.frames
            &&& match goal {
                Goal::Collect => action is Done && next.pictures == decoder.pictures,
                Goal::Tail { deadline } => if ended || now >= deadline {
                    action is Release && next.pictures is None && next.phase is Releasing
                } else {
                    &&& action is Wait
                    &&& next.phase == (Phase::Parked { deadline })
                    &&& next.pictures == decoder.pictures
                },
            }
        }),
{
}

/// A parked drain looks again, with the deadline it had, and a queue that has been given
/// up is negotiated anew.
pub proof fn law_a_parked_drain_goes_on(decoder: DecoderView, now: int)
    ensures
        decoder.phase matches Phase::Parked { deadline } ==> {
            let (next, action) = decoder.step(Told::Done, now);
            &&& action is DequeuePicture
            &&& next.phase == (Phase::Collecting { goal: Goal::Tail { deadline } })
            &&& next.pictures == decoder.pictures
            &&& next.frames == decoder.frames
        },
        decoder.phase is Releasing && decoder.pictures is None ==> {
            let (next, action) = decoder.step(Told::Done, now);
            &&& action is GetFormat
            &&& next.phase is Defaulting
            &&& next.frames == decoder.frames
        },
{
}

/// A picture is taken out of every buffer that holds one and is not flagged bad, and out
/// of no other, and the buffer goes back to the driver first.
pub proof fn law_every_good_picture_is_taken(
    decoder: DecoderView,
    goal: Goal,
    buffer: Dequeued,
    memory: Seq<Seq<u8>>,
    now: int,
)
    requires
        decoder.phase == (Phase::Collecting { goal }),
        decoder.pictures is Some,
    ensures
        ({
            let (next, action) = decoder.step(
                Told::Picture(Dequeue::Buffer(buffer), Some(memory)),
                now,
            );
            let planes = decoder.pictures->0.planes;
            &&& action == (Action::QueuePicture { index: buffer.index })
            &&& next.phase == (Phase::Requeueing { goal, buffer })
            &&& next.frames == decoder.frames
            &&& next.pictures == decoder.pictures
            &&& if buffer.bytesused@[0] != 0 && buffer.flags & FLAG_ERROR == 0 {
                match planes.held(memory) {
                    Ok(samples) => next.decoded == Some(
                        Ok::<(Size, Seq<u8>), Error>((planes.size, samples)),
                    ),
                    Err(err) => next.decoded == Some(Err::<(Size, Seq<u8>), Error>(err)),
                }
            } else {
                next.decoded is None
            }
        }),
{
}

/// A picture whose buffer is back with the driver is shown under the time the buffer
/// carries, behind those shown before. One that could not be copied out, or whose time is
/// too far out to send, fails the call. Then the drain goes on, past a buffer flagged last
/// just as past the end of the sequence.
#[verifier::spinoff_prover]
#[verifier::rlimit(40)]
pub proof fn law_what_becomes_of_a_picture(
    decoder: DecoderView,
    goal: Goal,
    buffer: Dequeued,
    now: int,
)
    requires
        decoder.phase == (Phase::Requeueing { goal, buffer }),
        buffer.timestamp.total() <= u64::MAX,
    ensures
        ({
            let (next, action) = decoder.step(Told::Done, now);
            let micros = buffer.timestamp.total() as u64;
            let frames = match decoder.decoded {
                Some(Ok((size, samples))) => decoder.frames.push(
                    Shown { size, samples, timestamp: micros },
                ),
                _ => decoder.frames,
            };
            let collected = DecoderView {
                frames,
                decoded: None,
                phase: Phase::Collecting { goal },
                ..decoder
            };
            match decoder.decoded {
                Some(Err(err)) => action == Action::Fail(err) && next.frames == decoder.frames,
                Some(Ok(_)) if micros > LAST_TIME => {
                    &&& action == Action::Fail(Error::TimestampRange { micros })
                    &&& next.frames == decoder.frames
                },
                _ => if buffer.flags & FLAG_LAST == 0 {
                    (next, action) == (collected, Action::DequeuePicture)
                } else {
                    (next, action) == collected.step(Told::Picture(Dequeue::Ended, None), now)
                },
            }
        }),
{
    assert(buffer.timestamp.total() % 0x1_0000_0000_0000_0000 == buffer.timestamp.total());
}

/// Whether pictures in a format can be laid out here.
pub open spec fn usable(code: u32) -> bool {
    code == NV12 || code == NV12M || code == YUV420 || code == YUV420M
}

/// How much a format is preferred, the smaller the more.
pub open spec fn rank(code: u32) -> int {
    if code == NV12 {
        0
    } else if code == NV12M {
        1
    } else if code == YUV420 {
        2
    } else {
        3
    }
}

/// The format is the driver's own default if pictures in it can be laid out, and
/// otherwise the best of those it offers that can, at the size the driver read out of the
/// stream. A driver that offers none of them fails the call.
pub proof fn law_how_a_format_is_chosen(
    decoder: DecoderView,
    format: Format,
    offered: Seq<u32>,
    now: int,
)
    ensures
        decoder.phase is Defaulting ==> {
            let (next, action) = decoder.step(Told::Negotiated(format), now);
            &&& next.format == Some(format)
            &&& usable(format.pixelformat) ==> action is VisibleSize && next.phase is Measuring
            &&& !usable(format.pixelformat) ==> action is ListFormats && next.phase is Listing
        },
        decoder.phase is Choosing ==> {
            let (next, action) = decoder.step(Told::Negotiated(format), now);
            &&& next.format == Some(format)
            &&& action is VisibleSize
            &&& next.phase is Measuring
        },
        decoder.phase is Listing && decoder.format == Some(format) ==> {
            let (next, action) = decoder.step(Told::Offered(offered), now);
            match action {
                Action::SetFormat { request } => {
                    &&& next.phase is Choosing
                    &&& usable(request.pixelformat)
                    &&& offered.contains(request.pixelformat)
                    &&& forall|i: int|
                        0 <= i < offered.len() && usable(offered[i]) ==> rank(request.pixelformat)
                            <= rank(#[trigger] offered[i])
                    &&& request == (Request {
                        pixelformat: request.pixelformat,
                        size: format.size,
                        sizeimage: None,
                        color: None,
                    })
                },
                Action::Fail(err) => {
                    &&& err == (Error::NoRawFormat { pixelformat: format.pixelformat })
                    &&& forall|i: int|
                        0 <= i < offered.len() ==> !usable(#[trigger] offered[i])
                },
                _ => false,
            }
        },
{
    if decoder.phase is Listing && decoder.format == Some(format) {
        assert(forall|i: int|
            0 <= i < offered.len() ==> offered.contains(#[trigger] offered[i]));
    }
}

/// The driver is asked for three pictures more than it needs for itself, which is one at
/// least, or for eight when it does not say. None granted fails the call; any number else
/// is mapped whole.
pub proof fn law_how_many_pictures_there_are(
    decoder: DecoderView,
    minimum: Option<i32>,
    granted: u32,
    now: int,
)
    ensures
        decoder.phase is Counting ==> {
            let (next, action) = decoder.step(Told::Minimum(minimum), now);
            &&& next.phase is Requesting
            &&& action matches Action::RequestBuffers { count }
            &&& match minimum {
                None => count == 8,
                Some(least) => count == 3 + if least > 1 {
                    least as int
                } else {
                    1
                },
            }
        },
        decoder.phase is Requesting && granted == 0 ==> decoder.step(
            Told::Granted(granted),
            now,
        ).1 == Action::Fail(Error::NoBuffers),
        decoder.phase is Requesting && decoder.format is Some && granted > 0 ==> {
            let (next, action) = decoder.step(Told::Granted(granted), now);
            &&& next.phase is Allocating
            &&& next.planes == decoder.planes
            &&& action == (Action::Allocate { step: AllocStep::Query { index: 0 } })
            &&& next.allocation matches Some(allocation)
            &&& allocation.count == granted
            &&& Some(allocation.format) == decoder.format
            &&& allocation.done.len() == 0
        },
{
}

/// Every picture buffer goes to the driver before the queue starts, in line, and the call
/// then goes on to take pictures.
pub proof fn law_pictures_are_primed_before_they_start(decoder: DecoderView, now: int)
    requires
        decoder.primed is Some,
    ensures
        decoder.phase is Priming ==> {
            let (next, action) = decoder.step(Told::Done, now);
            let free = decoder.primed->0.queue.free;
            &&& next.primed is Some
            &&& next.primed->0.planes == decoder.primed->0.planes
            &&& if free.len() > 0 {
                &&& action == (Action::QueuePicture { index: free[0] })
                &&& next.primed->0.queue.free == free.subrange(1, free.len() as int)
                &&& next.phase is Priming
            } else {
                action is StreamPictures && next.phase is Starting
            }
        },
        decoder.phase is Starting ==> {
            let (next, action) = decoder.step(Told::Done, now);
            &&& action is DequeuePicture
            &&& next.phase == (Phase::Collecting { goal: Goal::Collect })
            &&& next.pictures matches Some(pictures)
            &&& pictures.planes == decoder.primed->0.planes
            &&& pictures.queue.streaming
            &&& pictures.queue.lengths == decoder.primed->0.queue.lengths
            &&& pictures.queue.free == decoder.primed->0.queue.free
            &&& next.primed is None
        },
{
}

/// Every refusal fails the call and forgets what was being negotiated. What was decoded
/// before it is still there.
pub proof fn law_refusals_fail_the_call(decoder: DecoderView, now: int)
    ensures
        ({
            let (next, action) = decoder.step(Told::Refused, now);
            &&& action == Action::Fail(Error::Refused)
            &&& next.phase is Idle
            &&& next.frames == decoder.frames
            &&& next.pictures == decoder.pictures
            &&& next.coded == decoder.coded
            &&& next.since == decoder.since
            &&& next.planes is None
            &&& next.primed is None
            &&& next.allocation is None
        }),
{
}

/// Nothing that happens changes the coded queue but which of its buffers are free, or
/// takes a picture queue away but to give it up.
#[verifier::spinoff_prover]
#[verifier::rlimit(40)]
pub proof fn law_what_a_decoder_keeps(decoder: DecoderView, told: Told, now: int)
    requires
        decoder.expects(told),
    ensures
        ({
            let (next, action) = decoder.step(told, now);
            &&& next.coded.format == decoder.coded.format
            &&& next.coded.lengths == decoder.coded.lengths
            &&& next.coded.dir == decoder.coded.dir
            &&& next.coded.streaming == decoder.coded.streaming
            &&& decoder.pictures is Some && !(decoder.phase is Starting) ==> action is Release
                || next.pictures == decoder.pictures
        }),
{
}

/// A frame that is there stays there, and at most one more comes with every answer.
#[verifier::spinoff_prover]
#[verifier::rlimit(40)]
pub proof fn law_frames_are_only_added(decoder: DecoderView, told: Told, now: int)
    requires
        decoder.expects(told),
    ensures
        ({
            let next = decoder.step(told, now).0;
            ||| next.frames == decoder.frames
            ||| next.frames.len() == decoder.frames.len() + 1 && next.frames.drop_last()
                == decoder.frames
        }),
{
    let next = decoder.step(told, now).0;
    if next.frames.len() == decoder.frames.len() + 1 {
        assert(next.frames.drop_last() =~= decoder.frames);
    }
}

/// A decoder takes every answer a driver can give to what it was asked: anything at all
/// may be refused, and a buffer that comes back has to be one of its own.
pub proof fn law_every_answer_is_taken(decoder: DecoderView, dequeue: Dequeue, changed: bool)
    ensures
        !(decoder.phase is Idle) ==> decoder.expects(Told::Refused),
        decoder.phase is Freeing && (dequeue matches Dequeue::Buffer(buffer) ==> buffer.index
            < decoder.coded.lengths.len()) ==> decoder.expects(Told::Coded(dequeue)),
        decoder.phase is Collecting && !(dequeue is Buffer) ==> decoder.expects(
            Told::Picture(dequeue, None),
        ),
        decoder.phase is Sizing || decoder.phase is Checking ==> decoder.expects(
            Told::Changed(changed),
        ),
        decoder.phase is Starved || decoder.phase is Filling || decoder.phase is Queueing
            || decoder.phase is Unsized || decoder.phase is Releasing || decoder.phase is Priming
            || decoder.phase is Starting || decoder.phase is Requeueing || decoder.phase is Parked
            ==> decoder.expects(Told::Done),
        forall|format: Format|
            (decoder.phase is Defaulting || decoder.phase is Choosing) && 1 <= format.planes@.len()
                <= 3 ==> #[trigger] decoder.expects(Told::Negotiated(format)),
        forall|offered: Seq<u32>|
            decoder.phase is Listing ==> #[trigger] decoder.expects(Told::Offered(offered)),
        forall|minimum: Option<i32>|
            decoder.phase is Counting ==> #[trigger] decoder.expects(Told::Minimum(minimum)),
        forall|count: u32|
            decoder.phase is Requesting ==> #[trigger] decoder.expects(Told::Granted(count)),
        forall|size: Size|
            decoder.phase is Measuring && decoder.format->0.countable(size)
                ==> #[trigger] decoder.expects(Told::Visible(Some(size))),
        decoder.phase is Measuring && decoder.format->0.countable(decoder.format->0.size)
            ==> decoder.expects(Told::Visible(None)),
{
}

/// What is free, shown or counted changes only when it has cause to: a coded buffer with
/// one given back or filled, a frame with a picture whose buffer is back with the driver,
/// the clock with the first access unit, and a picture queue with its start or its end.
#[verifier::spinoff_prover]
#[verifier::rlimit(40)]
pub proof fn law_nothing_changes_without_cause(decoder: DecoderView, told: Told, now: int)
    requires
        decoder.expects(told),
    ensures
        ({
            let (next, action) = decoder.step(told, now);
            &&& next.coded.free == decoder.coded.free || decoder.phase is Freeing
            &&& next.frames == decoder.frames || decoder.phase is Requeueing && told is Done
            &&& next.since == decoder.since || decoder.phase is Queueing && told is Done
            &&& next.pictures == decoder.pictures || action is Release || decoder.phase is Starting
        }),
{
}

/// The layout the rectangle called for is the one the pictures get, byte for byte, in the
/// format that was negotiated and with every buffer that was mapped.
#[verifier::spinoff_prover]
#[verifier::rlimit(40)]
pub proof fn law_the_layout_is_carried_through(decoder: DecoderView, told: Told, now: int)
    requires
        decoder.expects(told),
        !(told is Refused),
    ensures
        decoder.phase is Counting ==> {
            let next = decoder.step(told, now).0;
            &&& next.planes == decoder.planes
            &&& next.format == decoder.format
        },
        decoder.phase is Requesting ==> {
            let (next, action) = decoder.step(told, now);
            next.planes == decoder.planes || action is Fail
        },
        decoder.phase is Allocating && decoder.allocation is Some && decoder.planes is Some ==> {
            let (next, action) = decoder.step(told, now);
            let mapped = match told {
                Told::Mapped(length) => decoder.allocation->0.mapped(length),
                _ => decoder.allocation->0.queried(),
            };
            if mapped.next() is Done {
                &&& next.primed matches Some(primed)
                &&& Some(primed.planes) == decoder.planes
                &&& primed.queue.lengths == mapped.finished().lengths
                &&& primed.queue.format == mapped.format
                &&& primed.queue.dir == mapped.dir
                &&& !primed.queue.streaming
                &&& mapped.count > 0 ==> {
                    &&& action == (Action::QueuePicture { index: 0 })
                    &&& primed.queue.free == mapped.finished().free.subrange(
                        1,
                        mapped.count as int,
                    )
                }
            } else {
                &&& next.phase is Allocating
                &&& next.planes == decoder.planes
                &&& next.allocation == Some(mapped)
                &&& action == (Action::Allocate { step: mapped.next() })
            }
        },
{
}

/// A decoder starts out with nowhere for a picture to go, nothing in hand, and no clock
/// running.
pub proof fn law_what_a_decoder_starts_with(coded: QueueView)
    ensures
        ({
            let decoder = DecoderView::fresh(coded);
            &&& decoder.coded == coded
            &&& decoder.pictures is None
            &&& decoder.primed is None
            &&& decoder.since is None
            &&& decoder.frames.len() == 0
            &&& decoder.decoded is None
            &&& decoder.phase is Idle
        }),
{
}

/// A decoder takes nothing but an answer to what it was asked, and nothing at all between
/// calls. A buffer that is not its own, or that comes without its memory, is no answer.
pub proof fn law_only_an_answer_is_taken(decoder: DecoderView, told: Told)
    requires
        decoder.expects(told),
    ensures
        !(decoder.phase is Idle),
        match told {
            Told::Done => decoder.phase is Starved || decoder.phase is Filling || decoder.phase
                is Queueing || decoder.phase is Unsized || decoder.phase is Releasing
                || decoder.phase is Priming || decoder.phase is Starting || decoder.phase
                is Requeueing || decoder.phase is Parked || decoder.phase is Allocating
                && decoder.allocation->0.next() is Query,
            Told::Refused => true,
            Told::Coded(dequeue) => {
                &&& decoder.phase is Freeing
                &&& dequeue matches Dequeue::Buffer(buffer) ==> buffer.index
                    < decoder.coded.lengths.len()
            },
            Told::Picture(dequeue, memory) => {
                &&& decoder.phase is Collecting
                &&& dequeue matches Dequeue::Buffer(buffer) ==> {
                    &&& buffer.index < decoder.pictures->0.queue.lengths.len()
                    &&& memory is Some
                }
            },
            Told::Changed(_) => decoder.phase is Sizing || decoder.phase is Checking,
            Told::Negotiated(format) => {
                &&& decoder.phase is Defaulting || decoder.phase is Choosing
                &&& 1 <= format.planes@.len() <= 3
            },
            Told::Offered(_) => decoder.phase is Listing,
            Told::Visible(_) => decoder.phase is Measuring,
            Told::Minimum(_) => decoder.phase is Counting,
            Told::Granted(_) => decoder.phase is Requesting,
            Told::Mapped(_) => decoder.phase is Allocating && decoder.allocation->0.next()
                is MapPlane,
        },
{
}

/// A picture buffer of the decoder's own is an answer when its memory comes along and
/// holds every plane the layout names, at places this machine can count to; and so is every
/// plane that is mapped, and every buffer that is asked about, in its turn.
pub proof fn law_every_buffer_is_taken(
    decoder: DecoderView,
    buffer: Dequeued,
    memory: Seq<Seq<u8>>,
    length: u32,
)
    ensures
        decoder.phase is Collecting && buffer.index < decoder.pictures->0.queue.lengths.len()
            && decoder.pictures->0.planes.addresses(memory) ==> decoder.expects(
            Told::Picture(Dequeue::Buffer(buffer), Some(memory)),
        ),
        decoder.phase is Allocating ==> {
            &&& decoder.allocation->0.next() is Query ==> decoder.expects(Told::Done)
            &&& decoder.allocation->0.next() is MapPlane ==> decoder.expects(Told::Mapped(length))
        },
{
}

/// Whether the driver has just said that it has no more pictures: the queue is empty or
/// past the end of a sequence, or the buffer just handed back was flagged last.
pub open spec fn no_more_pictures(begun: (DecoderView, Action), replies: Seq<Heard>) -> bool {
    ||| replies.last().told matches Told::Picture(Dequeue::Empty, _)
    ||| replies.last().told matches Told::Picture(Dequeue::Ended, _)
    ||| {
        &&& replies.len() >= 2
        &&& after(begun, replies.drop_last()).1 is QueuePicture
        &&& replies.last().told is Done
        &&& replies.drop_last().last().told matches Told::Picture(Dequeue::Buffer(buffer), _)
        &&& buffer.flags & FLAG_LAST != 0
    }
}

/// A decode hands the driver the access unit it was given, whole and under its own time,
/// and leaves no picture untaken that was ready: it succeeds only once the driver says that
/// it has no more, or while the stream has no size yet.
pub proof fn law_how_a_decode_goes(
    decoder: DecoderView,
    len: usize,
    timestamp: Duration,
    since: int,
    replies: Seq<Heard>,
)
    requires
        len <= u32::MAX,
        answers(decoder.decode(len, timestamp, since), replies),
    ensures
        ({
            let begun = decoder.decode(len, timestamp, since);
            match after(begun, replies).1 {
                Action::QueueCoded { len: handed, timestamp: at, .. } => handed == len && at
                    == timestamp,
                Action::Done => {
                    &&& replies.len() > 0
                    &&& replies.last().told == Told::Changed(false) || no_more_pictures(
                        begun,
                        replies,
                    )
                },
                _ => true,
            }
        }),
{
    let begun = decoder.decode(len, timestamp, since);
    if replies.len() > 0 {
        lemma_underway(decoder, len, timestamp, since, replies.drop_last());
        lemma_underway_step(
            after(begun, replies.drop_last()),
            Input { len, timestamp },
            replies,
        );
    }
}

/// Whether a decode is on its way with an access unit, and knows the buffer it hands back.
spec fn underway(state: (DecoderView, Action), input: Input, replies: Seq<Heard>) -> bool {
    match state.0.phase {
        Phase::Idle => true,
        Phase::Freeing { input: of, .. }
        | Phase::Starved { input: of, .. }
        | Phase::Filling { input: of, .. } => of == input,
        Phase::Requeueing { buffer, .. } => {
            &&& state.1 is QueuePicture
            &&& replies.len() > 0
            &&& replies.last().told matches Told::Picture(Dequeue::Buffer(taken), _)
            &&& taken == buffer
        },
        _ => true,
    }
}

#[verifier::spinoff_prover]
#[verifier::rlimit(40)]
proof fn lemma_underway_step(state: (DecoderView, Action), input: Input, replies: Seq<Heard>)
    requires
        input.len <= u32::MAX,
        replies.len() > 0,
        underway(state, input, replies.drop_last()),
        state.0.expects(replies.last().told),
    ensures
        ({
            let told = replies.last().told;
            let next = state.0.step(told, replies.last().now);
            &&& underway(next, input, replies)
            &&& next.1 matches Action::QueueCoded { len, timestamp, .. } ==> len == input.len
                && timestamp == input.timestamp
            &&& next.1 is Done ==> {
                ||| told == Told::Changed(false)
                ||| told matches Told::Picture(Dequeue::Empty, _)
                ||| told matches Told::Picture(Dequeue::Ended, _)
                ||| {
                    &&& state.1 is QueuePicture
                    &&& told is Done
                    &&& replies.len() >= 2
                    &&& replies.drop_last().last().told matches Told::Picture(
                        Dequeue::Buffer(buffer),
                        _,
                    )
                    &&& buffer.flags & FLAG_LAST != 0
                }
            }
        }),
{
}

proof fn lemma_underway(
    decoder: DecoderView,
    len: usize,
    timestamp: Duration,
    since: int,
    replies: Seq<Heard>,
)
    requires
        len <= u32::MAX,
        answers(decoder.decode(len, timestamp, since), replies),
    ensures
        underway(
            after(decoder.decode(len, timestamp, since), replies),
            Input { len, timestamp },
            replies,
        ),
    decreases replies.len(),
{
    if replies.len() > 0 {
        lemma_underway(decoder, len, timestamp, since, replies.drop_last());
        lemma_underway_step(
            after(decoder.decode(len, timestamp, since), replies.drop_last()),
            Input { len, timestamp },
            replies,
        );
    }
}

} // verus!

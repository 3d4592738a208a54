//! What holds of every run of the decoder, whatever the driver answers.

use vstd::prelude::*;

use super::v4l2::{
    Action, DecoderView, Goal, Phase, Shown, Told, BUFFER_TIMEOUT, SOURCE_CHANGE_BUDGET,
};
use crate::error::Error;
use crate::frame::Size;
use crate::time::{lemma_span_of, stamped, Duration, MAX_TIMESTAMP};
use crate::v4l2::fourcc::is_raw;
use crate::v4l2::laws::law_layout_keeps_components_apart;
use crate::v4l2::planes::laid_out;
use crate::v4l2::queue::{Dequeue, Dequeued};

verus! {

/// Every buffer an action names is one of the pool it is for, and an access unit
/// fits the buffer it is copied into.
pub proof fn law_actions_name_buffers_of_the_pool(decoder: DecoderView, told: Told, now: int)
    requires
        decoder.wf(),
        decoder.expects(told),
    ensures
        ({
            let (next, action) = decoder.step(told, now);
            match action {
                Action::Fill { index } => {
                    &&& next.coded.owns(index)
                    &&& next.phase matches Phase::Filling { input, .. }
                    &&& input.len <= next.coded.lengths[index as int][0]
                },
                Action::QueueCoded { index, len, timestamp } => {
                    &&& next.coded.owns(index)
                    &&& len <= next.coded.lengths[index as int][0]
                    &&& timestamp.wf()
                },
                Action::QueuePicture { index } => next.picture_queue() matches Some(queue)
                    && queue.owns(index),
                _ => true,
            }
        }),
{
}

/// Wherever the driver put the planes of the picture queue, they hold a format
/// that can be laid out, and no two samples of a picture share a byte of them.
pub proof fn law_pictures_are_laid_out_apart(decoder: DecoderView)
    requires
        decoder.wf(),
        decoder.pictures is Some,
    ensures
        is_raw(decoder.pictures->0.queue.format.pixelformat),
        decoder.pictures->0.planes.apart(),
{
    reveal(laid_out);
    let pictures = decoder.pictures->0;
    law_layout_keeps_components_apart(&pictures.queue.format, pictures.planes.size);
}

/// A picture buffer goes back to the driver before anything can fail, whatever is in
/// it: the failure of a picture that could not be copied out comes once the buffer
/// is back.
pub proof fn law_a_picture_buffer_goes_straight_back(
    decoder: DecoderView,
    buffer: Dequeued,
    memory: Seq<Seq<u8>>,
    now: int,
)
    requires
        decoder.wf(),
        decoder.expects(Told::Picture(Dequeue::Buffer(buffer), Some(memory))),
    ensures
        ({
            let (next, action) = decoder.step(
                Told::Picture(Dequeue::Buffer(buffer), Some(memory)),
                now,
            );
            &&& action == (Action::QueuePicture { index: buffer.index })
            &&& next.expects(Told::Done)
            &&& next.decoded matches Some(Err(err)) ==> {
                &&& decoder.pictures->0.planes.held(memory) == Err::<Seq<u8>, Error>(err)
                &&& forall|later: int|
                    (#[trigger] next.step(Told::Done, later)).1 == Action::Fail(err)
            }
        }),
{
}

/// An access unit too large for the decoder costs no buffer: the one taken for it
/// is free again.
pub proof fn law_an_oversized_unit_costs_no_buffer(decoder: DecoderView, told: Told, now: int)
    requires
        decoder.wf(),
        decoder.expects(told),
        decoder.step(told, now).1 matches Action::Fail(Error::Oversized { .. }),
    ensures
        decoder.step(told, now).0.coded.free.to_multiset() == decoder.coded.free.to_multiset(),
{
    broadcast use vstd::seq_lib::group_to_multiset_ensures;

    let free = decoder.coded.free;
    assert(free.remove(0) =~= free.drop_first());
    vstd::seq_lib::to_multiset_remove(free, 0);
    assert(free.drop_first().push(free.first()).to_multiset() =~= free.to_multiset());
}

/// The pictures from before a change of size are taken before their queue is
/// given up: that waits for the end of the sequence, and past the deadline only
/// for a driver that never marks one.
pub proof fn law_pictures_are_taken_before_their_queue_goes(
    decoder: DecoderView,
    told: Told,
    now: int,
)
    requires
        decoder.wf(),
        decoder.expects(told),
        decoder.step(told, now).1 is Release,
    ensures
        match decoder.phase {
            Phase::Collecting { goal: Goal::Tail { deadline } } => {
                ||| told matches Told::Picture(Dequeue::Ended, _)
                ||| told matches Told::Picture(Dequeue::Empty, _) && now >= deadline
            },
            Phase::Requeueing { goal: Goal::Tail { .. }, buffer } => buffer.spec_last(),
            _ => false,
        },
{
}

/// What a step adds to the output is one picture the driver decoded whole, under
/// the time its buffer carried. Nothing already in the output changes.
pub proof fn law_output_is_what_was_decoded(decoder: DecoderView, told: Told, now: int)
    requires
        decoder.wf(),
        decoder.expects(told),
    ensures
        ({
            let next = decoder.step(told, now).0;
            ||| next.frames == decoder.frames
            ||| {
                &&& decoder.phase matches Phase::Requeueing { buffer, .. }
                &&& decoder.decoded matches Some(Ok((size, samples)))
                &&& next.frames == decoder.frames.push(
                    Shown { size, samples, timestamp: stamped(buffer.timestamp) },
                )
            }
        }),
{
}

/// A picture is only ever copied out of a buffer that holds one and that the
/// driver did not flag bad.
pub proof fn law_bad_pictures_are_not_taken(decoder: DecoderView, told: Told, now: int)
    requires
        decoder.wf(),
        decoder.expects(told),
        decoder.decoded is None,
        decoder.step(told, now).0.decoded matches Some(Ok(_)),
    ensures
        told matches Told::Picture(Dequeue::Buffer(buffer), Some(memory)) && {
            &&& buffer.bytesused@[0] != 0
            &&& !buffer.spec_failed()
            &&& decoder.pictures->0.planes.held(memory) matches Ok(samples)
            &&& decoder.step(told, now).0.decoded == Some(
                Ok::<(Size, Seq<u8>), Error>((decoder.pictures->0.planes.size, samples)),
            )
        },
{
}

/// A picture comes out under the time its access unit went in with: the buffer that
/// carries the timestamp back is shown at that very time.
pub proof fn law_a_picture_keeps_its_time(
    decoder: DecoderView,
    goal: Goal,
    buffer: Dequeued,
    micros: u64,
    now: int,
)
    requires
        decoder.wf(),
        decoder.phase == (Phase::Requeueing { goal, buffer }),
        buffer.timestamp == Duration::of(micros),
        decoder.decoded matches Some(Ok(_)),
        micros <= MAX_TIMESTAMP,
    ensures
        ({
            let (size, samples) = decoder.decoded->0->Ok_0;
            decoder.step(Told::Done, now).0.frames == decoder.frames.push(
                Shown { size, samples, timestamp: micros },
            )
        }),
{
    lemma_span_of(micros);
}

/// The clock on a stream without a size runs from the first access unit, and once
/// it has run [`SOURCE_CHANGE_BUDGET`] the next call to find no size fails. Until
/// then a call that finds none succeeds with no pictures.
pub proof fn law_an_unsized_stream_is_given_up_on(decoder: DecoderView, told: Told, now: int)
    requires
        decoder.wf(),
        decoder.expects(told),
    ensures
        decoder.since is Some ==> decoder.step(told, now).0.since == decoder.since,
        decoder.phase matches Phase::Sizing { deadline } ==> told == Told::Changed(false) && now
            >= deadline ==> {
            let (next, action) = decoder.step(told, now);
            if decoder.waited(now) >= SOURCE_CHANGE_BUDGET {
                action == Action::Fail(Error::SizeUnknown { waited: decoder.waited(now) as u64 })
            } else {
                action is Done && next.frames == decoder.frames
            }
        },
{
}

/// A reply and when it came, in nanoseconds.
pub struct Heard {
    pub told: Told,
    pub now: int,
}

/// Where a call that began as `begun` has come after the replies.
pub open spec fn after(begun: (DecoderView, Action), replies: Seq<Heard>) -> (DecoderView, Action)
    decreases replies.len(),
{
    if replies.len() == 0 {
        begun
    } else {
        after(begun, replies.drop_last()).0.step(replies.last().told, replies.last().now)
    }
}

/// Whether each reply answers what was asked before it.
pub open spec fn answers(begun: (DecoderView, Action), replies: Seq<Heard>) -> bool
    decreases replies.len(),
{
    replies.len() > 0 ==> {
        &&& answers(begun, replies.drop_last())
        &&& after(begun, replies.drop_last()).0.expects(replies.last().told)
    }
}

/// Until the driver has reported the stream's size there is nowhere for a picture
/// to go, and decoding produces none.
pub proof fn law_no_pictures_before_the_size(
    decoder: DecoderView,
    len: usize,
    timestamp: Duration,
    since: int,
    replies: Seq<Heard>,
)
    requires
        decoder.pictures is None,
        answers(decoder.decode(len, timestamp, since), replies),
    ensures
        ({
            let (now, _) = after(decoder.decode(len, timestamp, since), replies);
            now.pictures is None ==> now.frames.len() == 0
        }),
{
    lemma_first(decoder, len, timestamp, since, replies);
}

/// Whether the decoder has not had two picture queues in one call.
spec fn first_queue(decoder: DecoderView) -> bool {
    &&& decoder.pictures is None ==> decoder.frames.len() == 0
    &&& match decoder.phase {
        Phase::Idle => true,
        Phase::Collecting { goal: Goal::Collect } => decoder.pictures is Some,
        Phase::Requeueing { goal: Goal::Collect, .. } => decoder.pictures is Some,
        Phase::Checking | Phase::Parked { .. } => false,
        Phase::Collecting { .. } | Phase::Requeueing { .. } => false,
        _ => decoder.pictures is None,
    }
}

proof fn lemma_first_step(decoder: DecoderView, told: Told, now: int)
    requires
        first_queue(decoder),
        decoder.expects(told),
    ensures
        first_queue(decoder.step(told, now).0),
{
}

proof fn lemma_first(
    decoder: DecoderView,
    len: usize,
    timestamp: Duration,
    since: int,
    replies: Seq<Heard>,
)
    requires
        decoder.pictures is None,
        answers(decoder.decode(len, timestamp, since), replies),
    ensures
        first_queue(after(decoder.decode(len, timestamp, since), replies).0),
    decreases replies.len(),
{
    if replies.len() > 0 {
        let earlier = replies.drop_last();
        lemma_first(decoder, len, timestamp, since, earlier);
        lemma_first_step(
            after(decoder.decode(len, timestamp, since), earlier).0,
            replies.last().told,
            replies.last().now,
        );
    }
}

/// A decode gives up on the driver only after [`BUFFER_TIMEOUT`] without a free
/// input buffer.
pub proof fn law_a_stalled_decode_waited(
    decoder: DecoderView,
    len: usize,
    timestamp: Duration,
    since: int,
    replies: Seq<Heard>,
)
    requires
        0 <= since <= u64::MAX,
        answers(decoder.decode(len, timestamp, since), replies),
        after(decoder.decode(len, timestamp, since), replies).1 == Action::Fail(
            Error::DecoderStalled,
        ),
    ensures
        replies.last().now >= since + BUFFER_TIMEOUT,
{
    lemma_wait(decoder, len, timestamp, since, replies.drop_last());
    lemma_wait_step(
        after(decoder.decode(len, timestamp, since), replies.drop_last()).0,
        since + BUFFER_TIMEOUT,
        replies.last().told,
        replies.last().now,
    );
}

/// Whether the access unit in hand is waited for until `deadline`.
spec fn waits_until(decoder: DecoderView, deadline: int) -> bool {
    match decoder.phase {
        Phase::Freeing { deadline: until, .. } => until == deadline,
        Phase::Starved { deadline: until, .. } => until == deadline,
        Phase::Requeueing { .. } => decoder.decoded matches Some(Err(err)) ==> err is Short,
        _ => true,
    }
}

proof fn lemma_wait_step(decoder: DecoderView, deadline: int, told: Told, now: int)
    requires
        waits_until(decoder, deadline),
        decoder.expects(told),
    ensures
        waits_until(decoder.step(told, now).0, deadline),
        decoder.step(told, now).1 == Action::Fail(Error::DecoderStalled) ==> now >= deadline,
{
}

proof fn lemma_wait(
    decoder: DecoderView,
    len: usize,
    timestamp: Duration,
    since: int,
    replies: Seq<Heard>,
)
    requires
        0 <= since <= u64::MAX,
        answers(decoder.decode(len, timestamp, since), replies),
    ensures
        waits_until(
            after(decoder.decode(len, timestamp, since), replies).0,
            since + BUFFER_TIMEOUT,
        ),
    decreases replies.len(),
{
    if replies.len() > 0 {
        let earlier = replies.drop_last();
        lemma_wait(decoder, len, timestamp, since, earlier);
        lemma_wait_step(
            after(decoder.decode(len, timestamp, since), earlier).0,
            since + BUFFER_TIMEOUT,
            replies.last().told,
            replies.last().now,
        );
    }
}

} // verus!

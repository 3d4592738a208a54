//! What holds of every run of the encoder, whatever the driver answers.

use vstd::prelude::*;

use super::v4l2::{
    Action, EncoderView, Goal, Phase, Told, Unit, BUFFER_TIMEOUT, FLUSH_TIMEOUT,
};
use crate::error::Error;
use crate::frame::Size;
use crate::time::{lemma_span_of, stamped, Duration, MAX_TIMESTAMP};
use crate::v4l2::planes::laid_out;
use crate::v4l2::laws::law_layout_keeps_components_apart;
use crate::v4l2::queue::{Dequeue, Dequeued};

verus! {

/// A reply and when it came, in nanoseconds.
pub struct Heard {
    pub told: Told,
    pub now: int,
}

/// Where a call that began as `begun` has come after the replies.
pub open spec fn after(begun: (EncoderView, Action), replies: Seq<Heard>) -> (EncoderView, Action)
    decreases replies.len(),
{
    if replies.len() == 0 {
        begun
    } else {
        after(begun, replies.drop_last()).0.step(replies.last().told, replies.last().now)
    }
}

/// Whether each reply answers what was asked before it, no earlier than the ones
/// before it, from `since` on.
pub open spec fn answers(begun: (EncoderView, Action), since: int, replies: Seq<Heard>) -> bool
    decreases replies.len(),
{
    replies.len() > 0 ==> {
        let earlier = replies.drop_last();
        &&& answers(begun, since, earlier)
        &&& after(begun, earlier).0.expects(replies.last().told)
        &&& since <= replies.last().now <= u64::MAX
        &&& earlier.len() > 0 ==> earlier.last().now <= replies.last().now
    }
}

/// Every buffer an action names is one of the pool it is for, and a frame goes in
/// under a time a `timeval` can carry.
pub proof fn law_actions_name_buffers_of_the_pool(encoder: EncoderView, told: Told, now: int)
    requires
        encoder.wf(),
        encoder.expects(told),
    ensures
        match encoder.step(told, now).1 {
            Action::Write { index } => encoder.raw.owns(index),
            Action::QueueRaw { index, timestamp } => encoder.raw.owns(index) && timestamp.wf(),
            Action::QueueCoded { index } => encoder.coded.owns(index),
            _ => true,
        },
{
}

/// Wherever the driver put the planes of the raw queue, no two samples of a frame
/// share a byte of them.
pub proof fn law_frames_are_laid_out_apart(encoder: EncoderView)
    requires
        encoder.wf(),
    ensures
        encoder.planes.apart(),
        encoder.planes.size == encoder.size,
{
    reveal(laid_out);
    law_layout_keeps_components_apart(&encoder.raw.format, encoder.size);
}

/// A coded buffer goes back to the driver as soon as it is taken from it, before
/// anything can fail, whatever is in it.
pub proof fn law_a_coded_buffer_goes_straight_back(
    encoder: EncoderView,
    buffer: Dequeued,
    memory: Seq<u8>,
    now: int,
)
    requires
        encoder.expects(Told::Coded(Dequeue::Buffer(buffer), memory)),
    ensures
        encoder.step(Told::Coded(Dequeue::Buffer(buffer), memory), now).1 == (Action::QueueCoded {
            index: buffer.index,
        }),
{
}

/// Streaming starts in the order every driver takes: the raw queue once a frame
/// has just gone in, and the coded queue last, once the raw queue is streaming
/// and the driver has every coded buffer.
pub proof fn law_streaming_starts_with_a_frame_in(encoder: EncoderView, told: Told, now: int)
    requires
        encoder.wf(),
        encoder.expects(told),
    ensures
        encoder.step(told, now).1 is StreamRaw ==> encoder.phase is Queueing && told is Done,
        encoder.step(told, now).1 is StreamCoded ==> {
            &&& encoder.step(told, now).0.raw.streaming
            &&& encoder.step(told, now).0.coded.free.len() == 0
        },
{
}

/// What a step adds to the output is one access unit that answers a frame the
/// driver still owed, published under that frame's time, behind any bytes that
/// were waiting for it. Nothing already in the output changes.
pub proof fn law_output_answers_owed_frames(encoder: EncoderView, told: Told, now: int)
    requires
        encoder.wf(),
        encoder.expects(told),
    ensures
        ({
            let next = encoder.step(told, now).0;
            ||| next.out == encoder.out
            ||| {
                &&& encoder.phase matches Phase::Requeueing { buffer, .. }
                &&& told is Done
                &&& !buffer.spec_failed()
                &&& encoder.pending.frames.contains(buffer.timestamp)
                &&& next.out == encoder.out.push(
                    Unit {
                        payload: encoder.pending.header + encoder.payload,
                        timestamp: stamped(buffer.timestamp),
                    },
                )
            }
        }),
{
}

/// The bytes of some access units, one after another.
pub open spec fn stream(out: Seq<Unit>) -> Seq<u8>
    decreases out.len(),
{
    if out.len() == 0 {
        Seq::empty()
    } else {
        stream(out.drop_last()) + out.last().payload
    }
}

/// The bytes of the coded buffer that a reply finds back with the driver, unless
/// the driver flagged it bad.
pub open spec fn taken(encoder: EncoderView, told: Told) -> Seq<u8> {
    match (encoder.phase, told) {
        (Phase::Requeueing { buffer, .. }, Told::Done) => if buffer.spec_failed() {
            Seq::empty()
        } else {
            encoder.payload
        },
        _ => Seq::empty(),
    }
}

/// The bytes of every coded buffer taken over a call.
pub open spec fn taken_over(begun: (EncoderView, Action), replies: Seq<Heard>) -> Seq<u8>
    decreases replies.len(),
{
    if replies.len() == 0 {
        Seq::empty()
    } else {
        let earlier = replies.drop_last();
        taken_over(begun, earlier) + taken(after(begun, earlier).0, replies.last().told)
    }
}

/// No byte the encoder hands over is lost, duplicated, or reordered: what a call
/// has published, followed by what still waits for an access unit, is what waited
/// before the call followed by every coded buffer taken since. The bytes of a buffer
/// the driver flagged bad, or does not take back, are not taken, and a time too far
/// out to send gives up on the bytes it comes with.
pub proof fn law_the_stream_comes_out_whole(encoder: EncoderView, call: Call)
    requires
        answers(call.begun(encoder), call.since, call.replies),
        !(after(call.begun(encoder), call.replies).1 matches Action::Fail(
            Error::TimestampRange { .. },
        )),
    ensures
        ({
            let now = after(call.begun(encoder), call.replies).0;
            stream(now.out) + now.pending.header == encoder.pending.header + taken_over(
                call.begun(encoder),
                call.replies,
            )
        }),
{
    lemma_stream(call.begun(encoder), call.since, call.replies);
}

proof fn lemma_stream(begun: (EncoderView, Action), since: int, replies: Seq<Heard>)
    requires
        begun.0.out.len() == 0,
        !(begun.1 matches Action::Fail(Error::TimestampRange { .. })),
        answers(begun, since, replies),
        !(after(begun, replies).1 matches Action::Fail(Error::TimestampRange { .. })),
    ensures
        ({
            let now = after(begun, replies).0;
            stream(now.out) + now.pending.header == begun.0.pending.header + taken_over(
                begun,
                replies,
            )
        }),
    decreases replies.len(),
{
    let now = after(begun, replies).0;
    if replies.len() == 0 {
        assert(stream(now.out) + now.pending.header =~= begun.0.pending.header + Seq::empty());
    } else {
        let earlier = replies.drop_last();
        let was = after(begun, earlier).0;
        let told = replies.last().told;
        assert(!(was.phase is Idle));
        if earlier.len() > 0 && after(begun, earlier).1 is Fail {
            lemma_failure_ends_the_call(begun, since, earlier);
        }
        lemma_stream(begun, since, earlier);
        lemma_stream_step(was, told, replies.last().now);
        assert(begun.0.pending.header + taken_over(begun, replies) =~= (begun.0.pending.header
            + taken_over(begun, earlier)) + taken(was, told));
    }
}

proof fn lemma_stream_step(encoder: EncoderView, told: Told, now: int)
    requires
        encoder.expects(told),
        !(encoder.step(told, now).1 matches Action::Fail(Error::TimestampRange { .. })),
    ensures
        ({
            let next = encoder.step(told, now).0;
            stream(next.out) + next.pending.header == (stream(encoder.out)
                + encoder.pending.header) + taken(encoder, told)
        }),
{
    let next = encoder.step(told, now).0;
    let whole = stream(encoder.out) + encoder.pending.header;
    lemma_published_bytes(encoder, told, now);
    if next.out.len() > encoder.out.len() {
        assert(next.out.drop_last() =~= encoder.out);
        assert(stream(next.out) + next.pending.header =~= whole + encoder.payload);
    } else {
        assert(stream(next.out) + next.pending.header =~= whole + taken(encoder, told));
    }
}

/// Where the bytes of a coded buffer go.
proof fn lemma_published_bytes(encoder: EncoderView, told: Told, now: int)
    requires
        encoder.expects(told),
        !(encoder.step(told, now).1 matches Action::Fail(Error::TimestampRange { .. })),
    ensures
        ({
            let next = encoder.step(told, now).0;
            ||| {
                &&& next.out == encoder.out
                &&& next.pending.header == encoder.pending.header + taken(encoder, told)
            }
            ||| {
                &&& next.out.len() == encoder.out.len() + 1
                &&& next.out.drop_last() == encoder.out
                &&& next.out.last().payload == encoder.pending.header + encoder.payload
                &&& next.pending.header.len() == 0
                &&& taken(encoder, told) == encoder.payload
            }
        }),
{
    let next = encoder.step(told, now).0;
    assert(encoder.pending.header + Seq::<u8>::empty() =~= encoder.pending.header);
    if let Phase::Requeueing { buffer, .. } = encoder.phase {
        if told is Done && !buffer.spec_failed() && encoder.payload.len() == 0 {
            assert(encoder.pending.header + encoder.payload =~= encoder.pending.header);
        }
    }
    if next.out.len() > encoder.out.len() {
        assert(next.out.drop_last() =~= encoder.out);
    }
}

/// A call that has failed is over.
proof fn lemma_failure_ends_the_call(begun: (EncoderView, Action), since: int, replies: Seq<Heard>)
    requires
        replies.len() > 0,
        answers(begun, since, replies),
        after(begun, replies).1 is Fail,
    ensures
        after(begun, replies).0.phase is Idle,
{
}

/// A frame comes out under the time it went in with: the coded buffer that carries
/// its timestamp back is published under that very time, behind any parameter sets
/// that came on their own.
pub proof fn law_a_frame_keeps_its_time(
    encoder: EncoderView,
    goal: Goal,
    buffer: Dequeued,
    micros: u64,
    now: int,
)
    requires
        encoder.wf(),
        encoder.phase == (Phase::Requeueing { goal, buffer }),
        buffer.timestamp == Duration::of(micros),
        encoder.pending.frames.contains(Duration::of(micros)),
        !buffer.spec_failed(),
        encoder.payload.len() > 0,
        micros <= MAX_TIMESTAMP,
    ensures
        encoder.step(Told::Done, now).0.out == encoder.out.push(
            Unit { payload: encoder.pending.header + encoder.payload, timestamp: micros },
        ),
{
    lemma_span_of(micros);
}

/// Whether a phase is part of a flush.
pub open spec fn flushing(phase: Phase) -> bool {
    match phase {
        Phase::Stopping | Phase::Restarting => true,
        Phase::Reclaiming { goal }
        | Phase::Collecting { goal }
        | Phase::Requeueing { goal, .. }
        | Phase::Parked { goal } => !(goal is Collect),
        _ => false,
    }
}

/// A flush that succeeds leaves nothing owed: every frame that went in before it
/// was answered, given up on by the driver, or written off at the end of the
/// sequence, so the next group starts clean.
pub proof fn law_a_finished_flush_owes_nothing(
    encoder: EncoderView,
    since: int,
    replies: Seq<Heard>,
)
    requires
        encoder.wf(),
        encoder.raw.streaming,
        encoder.coded.streaming,
        answers(encoder.flush(since), since, replies),
    ensures
        ({
            let (now, action) = after(encoder.flush(since), replies);
            &&& action is Done ==> now.pending.frames.len() == 0
            &&& action is Done || action is Fail || flushing(now.phase)
        }),
{
    lemma_flush(encoder, since, replies);
}

/// Whether a flush has come this far: still at it, or over.
spec fn flushed(now: EncoderView, action: Action) -> bool {
    &&& now.phase is Restarting ==> now.pending.frames.len() == 0
    &&& flushing(now.phase) || now.phase is Idle
    &&& now.phase is Idle ==> action is Done || action is Fail
    &&& action is Done ==> now.phase is Idle && now.pending.frames.len() == 0
}

proof fn lemma_flush_step(encoder: EncoderView, told: Told, now: int)
    requires
        flushing(encoder.phase),
        encoder.phase is Restarting ==> encoder.pending.frames.len() == 0,
        encoder.expects(told),
    ensures
        flushed(encoder.step(told, now).0, encoder.step(told, now).1),
{
}

proof fn lemma_flush(encoder: EncoderView, since: int, replies: Seq<Heard>)
    requires
        encoder.wf(),
        encoder.raw.streaming,
        encoder.coded.streaming,
        answers(encoder.flush(since), since, replies),
    ensures
        flushed(
            after(encoder.flush(since), replies).0,
            after(encoder.flush(since), replies).1,
        ),
    decreases replies.len(),
{
    if replies.len() > 0 {
        let earlier = replies.drop_last();
        lemma_flush(encoder, since, earlier);
        lemma_flush_step(
            after(encoder.flush(since), earlier).0,
            replies.last().told,
            replies.last().now,
        );
    }
}

/// A control or a command the driver has refused is not asked for again, however
/// many frames and flushes follow.
pub proof fn law_a_refusal_is_remembered(
    encoder: EncoderView,
    calls: Seq<Call>,
)
    requires
        all_answered(encoder, calls),
    ensures
        !encoder.keyframes ==> !ends_with(encoder, calls, Action::ForceKeyframe) && !run(
            encoder,
            calls,
        ).keyframes,
        !encoder.drainable ==> !ends_with(encoder, calls, Action::Stop) && !run(
            encoder,
            calls,
        ).drainable,
    decreases calls.len(),
{
    if calls.len() > 0 {
        let earlier = calls.drop_last();
        law_a_refusal_is_remembered(encoder, earlier);
        let call = calls.last();
        lemma_refusals_last(call.begun(run(encoder, earlier)), call.since, call.replies);
    }
}

proof fn lemma_refusal_step(encoder: EncoderView, told: Told, now: int)
    requires
        encoder.expects(told),
    ensures
        !encoder.keyframes ==> !encoder.step(told, now).0.keyframes && !(encoder.step(
            told,
            now,
        ).1 is ForceKeyframe),
        !encoder.drainable ==> !encoder.step(told, now).0.drainable && !(encoder.step(
            told,
            now,
        ).1 is Stop),
{
}

proof fn lemma_refusals_last(begun: (EncoderView, Action), since: int, replies: Seq<Heard>)
    requires
        answers(begun, since, replies),
    ensures
        !begun.0.keyframes && !(begun.1 is ForceKeyframe) ==> !after(begun, replies).0.keyframes
            && !(after(begun, replies).1 is ForceKeyframe),
        !begun.0.drainable && !(begun.1 is Stop) ==> !after(begun, replies).0.drainable && !(after(
            begun,
            replies,
        ).1 is Stop),
    decreases replies.len(),
{
    if replies.len() > 0 {
        let earlier = replies.drop_last();
        lemma_refusals_last(begun, since, earlier);
        lemma_refusal_step(after(begun, earlier).0, replies.last().told, replies.last().now);
    }
}

/// What a caller asks the encoder for.
pub enum Ask {
    Encode { size: Size, timestamp: Duration, keyframe: bool },
    Flush,
}

/// A call and the replies to it.
pub struct Call {
    pub ask: Ask,
    pub since: int,
    pub replies: Seq<Heard>,
}

impl Call {
    pub open spec fn begun(self, encoder: EncoderView) -> (EncoderView, Action) {
        match self.ask {
            Ask::Encode { size, timestamp, keyframe } => encoder.encode(size, timestamp, keyframe),
            Ask::Flush => encoder.flush(self.since),
        }
    }
}

/// The encoder after a run of calls.
pub open spec fn run(encoder: EncoderView, calls: Seq<Call>) -> EncoderView
    decreases calls.len(),
{
    if calls.len() == 0 {
        encoder
    } else {
        let call = calls.last();
        after(call.begun(run(encoder, calls.drop_last())), call.replies).0
    }
}

/// Whether the last thing a run of calls asked for is `action`.
pub open spec fn ends_with(encoder: EncoderView, calls: Seq<Call>, action: Action) -> bool {
    calls.len() > 0 && after(
        calls.last().begun(run(encoder, calls.drop_last())),
        calls.last().replies,
    ).1 == action
}

/// Whether the replies to each call answer what was asked.
pub open spec fn all_answered(encoder: EncoderView, calls: Seq<Call>) -> bool
    decreases calls.len(),
{
    calls.len() > 0 ==> {
        let call = calls.last();
        &&& all_answered(encoder, calls.drop_last())
        &&& answers(call.begun(run(encoder, calls.drop_last())), call.since, call.replies)
    }
}

/// A frame goes to the driver under its own time, and a keyframe is only asked
/// for when the caller asked for one.
pub proof fn law_a_frame_goes_in_as_given(
    encoder: EncoderView,
    size: Size,
    timestamp: Duration,
    keyframe: bool,
    since: int,
    replies: Seq<Heard>,
)
    requires
        answers(encoder.encode(size, timestamp, keyframe), since, replies),
    ensures
        match after(encoder.encode(size, timestamp, keyframe), replies).1 {
            Action::QueueRaw { timestamp: queued, .. } => queued == timestamp,
            Action::ForceKeyframe => keyframe,
            _ => true,
        },
{
    lemma_job(encoder, size, timestamp, keyframe, since, replies);
}

/// Whether a frame on its way to the driver is the one given.
spec fn carries(phase: Phase, timestamp: Duration, keyframe: bool) -> bool {
    match phase {
        Phase::Converting { job }
        | Phase::Freeing { job, .. }
        | Phase::Starved { job, .. }
        | Phase::Writing { job, .. }
        | Phase::Forcing { job, .. }
        | Phase::Queueing { job } => job.timestamp == timestamp && job.keyframe == keyframe,
        _ => true,
    }
}

spec fn asks_for(action: Action, timestamp: Duration, keyframe: bool) -> bool {
    match action {
        Action::QueueRaw { timestamp: queued, .. } => queued == timestamp,
        Action::ForceKeyframe => keyframe,
        _ => true,
    }
}

proof fn lemma_job_step(
    encoder: EncoderView,
    timestamp: Duration,
    keyframe: bool,
    told: Told,
    now: int,
)
    requires
        encoder.expects(told),
        carries(encoder.phase, timestamp, keyframe),
    ensures
        carries(encoder.step(told, now).0.phase, timestamp, keyframe),
        asks_for(encoder.step(told, now).1, timestamp, keyframe),
{
}

proof fn lemma_job(
    encoder: EncoderView,
    size: Size,
    timestamp: Duration,
    keyframe: bool,
    since: int,
    replies: Seq<Heard>,
)
    requires
        answers(encoder.encode(size, timestamp, keyframe), since, replies),
    ensures
        ({
            let (now, action) = after(encoder.encode(size, timestamp, keyframe), replies);
            &&& carries(now.phase, timestamp, keyframe)
            &&& asks_for(action, timestamp, keyframe)
        }),
    decreases replies.len(),
{
    if replies.len() > 0 {
        let earlier = replies.drop_last();
        lemma_job(encoder, size, timestamp, keyframe, since, earlier);
        lemma_job_step(
            after(encoder.encode(size, timestamp, keyframe), earlier).0,
            timestamp,
            keyframe,
            replies.last().told,
            replies.last().now,
        );
    }
}

/// How many access units a call has produced after the first `at` replies.
pub open spec fn produced(begun: (EncoderView, Action), replies: Seq<Heard>, at: int) -> nat {
    after(begun, replies.take(at)).0.out.len()
}

/// A flush gives up only on silence: when it reports that the encoder stalled, no
/// access unit came in the whole of [`FLUSH_TIMEOUT`] before that.
pub proof fn law_a_stalled_flush_was_silent(
    encoder: EncoderView,
    since: int,
    replies: Seq<Heard>,
    at: int,
)
    requires
        encoder.raw.streaming,
        encoder.coded.streaming,
        0 <= since <= u64::MAX,
        replies.len() <= usize::MAX,
        answers(encoder.flush(since), since, replies),
        stalled(after(encoder.flush(since), replies).1),
        0 < at <= replies.len(),
        replies[at - 1].now > replies.last().now - FLUSH_TIMEOUT,
    ensures
        produced(encoder.flush(since), replies, at) == produced(
            encoder.flush(since),
            replies,
            replies.len() as int,
        ),
{
    lemma_silence(encoder, since, replies);
}

/// Whether an action reports that a flush stalled.
pub open spec fn stalled(action: Action) -> bool {
    match action {
        Action::Fail(Error::DrainStalled { .. }) | Action::Fail(Error::FramesHeld { .. }) => true,
        _ => false,
    }
}

/// The deadline of a flush and how many access units it had produced when this
/// round of it began.
spec fn round(phase: Phase) -> Option<(u128, usize)> {
    match phase {
        Phase::Reclaiming { goal }
        | Phase::Collecting { goal }
        | Phase::Requeueing { goal, .. }
        | Phase::Parked { goal } => match goal {
            Goal::ToLast { deadline, before } => Some((deadline, before)),
            Goal::WaitOut { deadline, before } => Some((deadline, before)),
            Goal::Collect => None,
        },
        _ => None,
    }
}

/// Everything produced since the deadline was last put off was there when this
/// round began.
spec fn silent_since(
    begun: (EncoderView, Action),
    replies: Seq<Heard>,
    deadline: u128,
    before: usize,
) -> bool {
    forall|at: int|
        0 < at <= replies.len() && #[trigger] replies[at - 1].now > deadline - FLUSH_TIMEOUT
            ==> produced(begun, replies, at) >= before
}

proof fn lemma_round(was: EncoderView, told: Told, now: int)
    requires
        was.expects(told),
        flushing(was.phase),
        0 <= now <= u64::MAX,
        was.out.len() < usize::MAX,
        round(was.phase) matches Some((_, before)) ==> before <= was.out.len(),
    ensures
        ({
            let (next, action) = was.step(told, now);
            &&& was.out.len() <= next.out.len() <= was.out.len() + 1
            &&& flushing(next.phase) || next.phase is Idle
            &&& round(next.phase) matches Some((deadline, before)) ==> {
                &&& before <= next.out.len()
                &&& {
                    ||| before == 0
                    ||| deadline - FLUSH_TIMEOUT == now
                    ||| round(was.phase) == Some((deadline, before))
                }
            }
            &&& stalled(action) ==> {
                &&& round(was.phase) matches Some((deadline, before))
                &&& now >= deadline
                &&& next.out.len() == before
            }
        }),
{
}

proof fn lemma_silence(encoder: EncoderView, since: int, replies: Seq<Heard>)
    requires
        encoder.raw.streaming,
        encoder.coded.streaming,
        0 <= since <= u64::MAX,
        replies.len() <= usize::MAX,
        answers(encoder.flush(since), since, replies),
    ensures
        ({
            let begun = encoder.flush(since);
            let (now, action) = after(begun, replies);
            &&& now.out.len() <= replies.len()
            &&& flushing(now.phase) || now.phase is Idle
            &&& forall|at: int|
                0 < at <= replies.len() ==> (#[trigger] replies[at - 1]).now
                    <= replies.last().now && produced(begun, replies, at) <= now.out.len()
            &&& round(now.phase) matches Some((deadline, before)) ==> {
                &&& before <= now.out.len()
                &&& silent_since(begun, replies, deadline, before)
            }
            &&& stalled(action) ==> forall|at: int|
                0 < at <= replies.len() && #[trigger] replies[at - 1].now > replies.last().now
                    - FLUSH_TIMEOUT ==> produced(begun, replies, at) == now.out.len()
        }),
    decreases replies.len(),
{
    let begun = encoder.flush(since);
    if replies.len() > 0 {
        let earlier = replies.drop_last();
        let last = replies.last();
        lemma_silence(encoder, since, earlier);
        let was = after(begun, earlier).0;
        let (now, action) = after(begun, replies);
        lemma_round(was, last.told, last.now);
        assert(replies.take(replies.len() as int) =~= replies);
        assert forall|at: int| 0 < at < replies.len() implies {
            &&& earlier[at - 1] == #[trigger] replies[at - 1]
            &&& produced(begun, replies, at) == produced(begun, earlier, at)
        } by {
            assert(earlier.take(at) =~= replies.take(at));
        }
        assert forall|at: int| 0 < at <= replies.len() implies (#[trigger] replies[at - 1]).now
            <= last.now && produced(begun, replies, at) <= now.out.len() by {
            if at < replies.len() {
                assert(earlier[at - 1].now <= earlier.last().now);
            }
        }
        if let Some((deadline, before)) = round(now.phase) {
            assert forall|at: int|
                0 < at <= replies.len() && #[trigger] replies[at - 1].now > deadline
                    - FLUSH_TIMEOUT implies produced(begun, replies, at) >= before by {
                if at < replies.len() && round(was.phase) == Some((deadline, before)) {
                    assert(earlier[at - 1].now > deadline - FLUSH_TIMEOUT);
                }
            }
        }
        if stalled(action) {
            let (deadline, before) = round(was.phase)->0;
            assert forall|at: int|
                0 < at <= replies.len() && #[trigger] replies[at - 1].now > last.now
                    - FLUSH_TIMEOUT implies produced(begun, replies, at) == now.out.len() by {
                if at < replies.len() {
                    assert(earlier[at - 1].now > deadline - FLUSH_TIMEOUT);
                }
            }
        }
    }
}

/// An encode gives up on the driver only after [`BUFFER_TIMEOUT`] without a free
/// input buffer, counted from when the frame was ready for one.
pub proof fn law_a_stalled_encode_waited(
    encoder: EncoderView,
    size: Size,
    timestamp: Duration,
    keyframe: bool,
    since: int,
    replies: Seq<Heard>,
)
    requires
        0 <= since <= u64::MAX,
        answers(encoder.encode(size, timestamp, keyframe), since, replies),
        after(encoder.encode(size, timestamp, keyframe), replies).1 == Action::Fail(
            Error::EncoderStalled,
        ),
    ensures
        replies.len() > 1,
        replies.last().now >= replies[0].now + BUFFER_TIMEOUT,
{
    let begun = encoder.encode(size, timestamp, keyframe);
    let earlier = replies.drop_last();
    lemma_wait(begun, since, earlier);
    lemma_wait_step(after(begun, earlier).0, deadline_of(earlier), replies.last());
    assert(earlier.len() > 0 ==> earlier[0] == replies[0]);
}

/// When an encode gives up on the driver, once the frame is ready.
spec fn deadline_of(replies: Seq<Heard>) -> int {
    replies[0].now + BUFFER_TIMEOUT
}

/// Whether the frame in hand is waited for until `deadline`.
spec fn waits_until(phase: Phase, deadline: int) -> bool {
    match phase {
        Phase::Freeing { deadline: until, .. } => until == deadline,
        Phase::Starved { deadline: until, .. } => until == deadline,
        _ => true,
    }
}

proof fn lemma_wait_step(encoder: EncoderView, deadline: int, heard: Heard)
    requires
        waits_until(encoder.phase, deadline),
        encoder.expects(heard.told),
    ensures
        encoder.step(heard.told, heard.now).0.phase is Converting ==> encoder.phase is Converting,
        !(encoder.phase is Converting) ==> waits_until(
            encoder.step(heard.told, heard.now).0.phase,
            deadline,
        ),
        encoder.step(heard.told, heard.now).1 == Action::Fail(Error::EncoderStalled)
            ==> encoder.phase is Freeing && heard.now >= deadline,
{
}

proof fn lemma_wait(begun: (EncoderView, Action), since: int, replies: Seq<Heard>)
    requires
        0 <= since <= u64::MAX,
        begun.0.phase is Converting || begun.0.phase is Idle,
        answers(begun, since, replies),
    ensures
        replies.len() == 0 ==> after(begun, replies) == begun,
        replies.len() > 0 ==> {
            let phase = after(begun, replies).0.phase;
            &&& !(phase is Converting)
            &&& waits_until(phase, deadline_of(replies))
        },
    decreases replies.len(),
{
    if replies.len() > 0 {
        let earlier = replies.drop_last();
        lemma_wait(begun, since, earlier);
        if earlier.len() > 0 {
            assert(earlier[0] == replies[0]);
            lemma_wait_step(after(begun, earlier).0, deadline_of(replies), replies.last());
        }
    }
}

} // verus!

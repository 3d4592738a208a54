//! What the encoder does for its caller, told by what it asks for and what it is answered.

use vstd::prelude::*;

use super::laws::{after, answers, Heard};
use super::v4l2::{Action, EncoderView, Goal, Job, Phase, Told, Unit};
use crate::error::Error;
use crate::frame::Size;
use crate::payload::coded_bytes;
use crate::time::Duration;
use crate::v4l2::planes::Planes;
use crate::v4l2::queue::{Dequeue, Dequeued, QueueView, FLAG_ERROR, FLAG_LAST};

verus! {

/// Half a second, in nanoseconds.
pub const HALF_A_SECOND: u64 = 500_000_000;

/// The last time that can be sent, in microseconds.
pub const LAST_TIME: u64 = 0x3fff_ffff_ffff_ffff;

/// A keyframe the caller asks for is forced, on every driver that has not refused the
/// control: the frame is handed to the driver right after the request for a keyframe,
/// whatever the driver answers to it, and for every frame of a stream alike.
pub proof fn law_a_requested_keyframe_is_forced(
    encoder: EncoderView,
    size: Size,
    timestamp: Duration,
    since: int,
    replies: Seq<Heard>,
)
    requires
        encoder.keyframes,
        answers(encoder.encode(size, timestamp, true), since, replies),
        after(encoder.encode(size, timestamp, true), replies).1 is QueueRaw,
    ensures
        replies.len() > 0,
        after(encoder.encode(size, timestamp, true), replies.drop_last()).1 is ForceKeyframe,
{
    let begun = encoder.encode(size, timestamp, true);
    if replies.len() > 0 {
        lemma_wanted(begun, since, replies.drop_last());
        lemma_wanted_step(after(begun, replies.drop_last()), replies.last());
    }
}

/// Whether a frame that is to be a keyframe has not gone past its request yet.
spec fn wanted(state: (EncoderView, Action)) -> bool {
    match state.0.phase {
        Phase::Converting { job }
        | Phase::Freeing { job, .. }
        | Phase::Starved { job, .. }
        | Phase::Writing { job, .. } => job.keyframe && state.0.keyframes,
        Phase::Forcing { .. } => state.1 is ForceKeyframe,
        _ => true,
    }
}

#[verifier::spinoff_prover]
#[verifier::rlimit(40)]
proof fn lemma_wanted_step(state: (EncoderView, Action), heard: Heard)
    requires
        wanted(state),
        state.0.expects(heard.told),
    ensures
        wanted(state.0.step(heard.told, heard.now)),
        state.0.step(heard.told, heard.now).1 is QueueRaw ==> state.1 is ForceKeyframe,
{
}

proof fn lemma_wanted(begun: (EncoderView, Action), since: int, replies: Seq<Heard>)
    requires
        wanted(begun),
        answers(begun, since, replies),
    ensures
        wanted(after(begun, replies)),
    decreases replies.len(),
{
    if replies.len() > 0 {
        lemma_wanted(begun, since, replies.drop_last());
        lemma_wanted_step(after(begun, replies.drop_last()), replies.last());
    }
}

/// Whether the driver has just marked the end of a sequence: the coded queue is past it,
/// or the coded buffer just handed back was flagged last.
pub open spec fn marks_the_end(begun: (EncoderView, Action), replies: Seq<Heard>) -> bool {
    ||| replies.last().told matches Told::Coded(Dequeue::Ended, _)
    ||| {
        &&& replies.len() >= 2
        &&& after(begun, replies.drop_last()).1 is QueueCoded
        &&& replies.last().told is Done
        &&& replies.drop_last().last().told matches Told::Coded(Dequeue::Buffer(buffer), _)
        &&& buffer.flags & FLAG_LAST != 0
    }
}

/// A flush of a driver that takes commands begins with a stop, and one whose stop was
/// granted never leaves the driver stopped when it succeeds: it is over only right after
/// a start that the driver took. The start comes when the driver marks the end of the
/// sequence, at no other time and no later.
pub proof fn law_a_granted_stop_is_taken_back(
    encoder: EncoderView,
    since: int,
    replies: Seq<Heard>,
)
    requires
        encoder.drainable,
        encoder.raw.streaming,
        encoder.coded.streaming,
        answers(encoder.flush(since), since, replies),
        replies.len() > 0,
        replies[0].told is Done,
    ensures
        encoder.flush(since).1 is Stop,
        ({
            let begun = encoder.flush(since);
            let (now, action) = after(begun, replies);
            &&& action is Done ==> {
                &&& after(begun, replies.drop_last()).1 is Start
                &&& replies.last().told is Done
            }
            &&& action is Start ==> marks_the_end(begun, replies)
            &&& replies.len() > 1 && marks_the_end(begun, replies) ==> action is Start || action
                matches Action::Fail(Error::TimestampRange { .. })
        }),
{
    lemma_stopped(encoder, since, replies);
}

/// Whether a flush is on its way from a granted stop to a start.
spec fn stopped(state: (EncoderView, Action), replies: Seq<Heard>) -> bool {
    match state.0.phase {
        Phase::Reclaiming { goal } | Phase::Parked { goal } => goal is ToLast && !(state.1
            is QueueCoded) && !(state.1 is Start) && !(state.1 is Done),
        Phase::Collecting { goal } => goal is ToLast && state.1 is DequeueCoded,
        Phase::Requeueing { goal, buffer } => {
            &&& goal is ToLast
            &&& state.1 is QueueCoded
            &&& replies.last().told matches Told::Coded(Dequeue::Buffer(taken), _)
            &&& taken == buffer
        },
        Phase::Restarting => state.1 is Start,
        Phase::Idle => state.1 is Done || state.1 is Fail,
        _ => false,
    }
}

#[verifier::spinoff_prover]
#[verifier::rlimit(40)]
proof fn lemma_stopped_step(state: (EncoderView, Action), replies: Seq<Heard>)
    requires
        replies.len() > 0,
        stopped(state, replies.drop_last()),
        state.0.expects(replies.last().told),
    ensures
        ({
            let (told, now) = (replies.last().told, replies.last().now);
            let next = state.0.step(told, now);
            let ends = {
                ||| told matches Told::Coded(Dequeue::Ended, _)
                ||| {
                    &&& state.1 is QueueCoded
                    &&& told is Done
                    &&& replies.drop_last().last().told matches Told::Coded(
                        Dequeue::Buffer(buffer),
                        _,
                    )
                    &&& buffer.flags & FLAG_LAST != 0
                }
            };
            &&& stopped(next, replies)
            &&& next.1 is Done ==> state.1 is Start && told is Done
            &&& next.1 is Start ==> ends
            &&& ends ==> next.1 is Start || next.1 matches Action::Fail(
                Error::TimestampRange { .. },
            )
        }),
{
}

proof fn lemma_stopped(encoder: EncoderView, since: int, replies: Seq<Heard>)
    requires
        encoder.drainable,
        encoder.raw.streaming,
        encoder.coded.streaming,
        answers(encoder.flush(since), since, replies),
        replies.len() > 0,
        replies[0].told is Done,
    ensures
        stopped(after(encoder.flush(since), replies), replies),
        ({
            let begun = encoder.flush(since);
            let (now, action) = after(begun, replies);
            &&& action is Done ==> {
                &&& after(begun, replies.drop_last()).1 is Start
                &&& replies.last().told is Done
            }
            &&& action is Start ==> marks_the_end(begun, replies)
            &&& replies.len() > 1 && marks_the_end(begun, replies) ==> action is Start || action
                matches Action::Fail(Error::TimestampRange { .. })
        }),
    decreases replies.len(),
{
    let begun = encoder.flush(since);
    let earlier = replies.drop_last();
    if replies.len() == 1 {
        assert(after(begun, earlier) == begun);
    } else {
        assert(earlier[0] == replies[0]);
        lemma_stopped(encoder, since, earlier);
        lemma_stopped_step(after(begun, earlier), replies);
    }
}

/// A flush begins with the driver's own way of ending a sequence where it has one, and
/// otherwise with a look at what it has finished, for half a second at least. There is
/// nothing to flush before both queues are streaming.
pub proof fn law_how_a_flush_begins(encoder: EncoderView, now: int)
    requires
        0 <= now <= u64::MAX,
    ensures
        encoder.flush(now).0.out.len() == 0,
        encoder.flush(now).0.pending == encoder.pending,
        !(encoder.raw.streaming && encoder.coded.streaming) ==> encoder.flush(now).1 is Done,
        encoder.raw.streaming && encoder.coded.streaming && encoder.drainable ==> encoder.flush(
            now,
        ).1 is Stop,
        encoder.raw.streaming && encoder.coded.streaming && !encoder.drainable ==> {
            &&& encoder.flush(now).1 is DequeueRaw
            &&& encoder.flush(now).0.phase == (Phase::Reclaiming {
                goal: Goal::WaitOut {
                    deadline: (now + HALF_A_SECOND) as u128,
                    before: 0,
                },
            })
        },
{
}

/// A frame of the size the encoder was opened for is converted, and one of any other size
/// is refused, saying both.
pub proof fn law_how_an_encode_begins(
    encoder: EncoderView,
    size: Size,
    timestamp: Duration,
    keyframe: bool,
)
    ensures
        ({
            let (next, action) = encoder.encode(size, timestamp, keyframe);
            &&& next.out.len() == 0
            &&& next.pending == encoder.pending
            &&& size == encoder.size ==> {
                &&& action is Convert
                &&& next.phase == (Phase::Converting { job: Job { timestamp, keyframe } })
            }
            &&& size != encoder.size ==> action == Action::Fail(
                Error::FrameSize { opened: encoder.size, given: size },
            )
        }),
{
}

/// A frame that is ready goes into the first free buffer there is, as soon as the driver
/// has no more to give back. Without one it waits, until half a second after it was
/// ready.
pub proof fn law_a_frame_goes_into_the_first_free_buffer(
    encoder: EncoderView,
    job: Job,
    deadline: u128,
    dequeue: Dequeue,
    now: int,
)
    requires
        encoder.phase == (Phase::Freeing { job, deadline }),
        !(dequeue is Buffer),
    ensures
        ({
            let (next, action) = encoder.step(Told::Raw(dequeue), now);
            let free = encoder.raw.free;
            if free.len() > 0 {
                &&& action == (Action::Write { index: free[0] })
                &&& next.phase == (Phase::Writing { job, index: free[0] })
                &&& next.raw.free == free.subrange(1, free.len() as int)
            } else if now >= deadline {
                action == Action::Fail(Error::EncoderStalled)
            } else {
                &&& action is Wait
                &&& next.phase == (Phase::Starved { job, deadline })
            }
        }),
{
}

/// The wait for a buffer is half a second from when the frame was ready, however often it
/// is parked in between.
pub proof fn law_a_frame_waits_half_a_second(encoder: EncoderView, now: int)
    requires
        0 <= now <= u64::MAX,
    ensures
        encoder.phase matches Phase::Converting { job } ==> encoder.step(Told::Done, now) == (
            EncoderView {
                phase: Phase::Freeing { job, deadline: (now + HALF_A_SECOND) as u128 },
                ..encoder
            },
            Action::DequeueRaw,
        ),
        encoder.phase matches Phase::Starved { job, deadline } ==> encoder.step(Told::Done, now)
            == (
            EncoderView { phase: Phase::Freeing { job, deadline }, ..encoder },
            Action::DequeueRaw,
        ),
{
}

/// Every raw buffer the driver gives back is free again, last in line, and the driver is
/// asked for more. Only one flagged bad writes its frame off.
pub proof fn law_raw_buffers_are_taken_back(encoder: EncoderView, buffer: Dequeued, now: int)
    requires
        encoder.expects(Told::Raw(Dequeue::Buffer(buffer))),
    ensures
        ({
            let (next, action) = encoder.step(Told::Raw(Dequeue::Buffer(buffer)), now);
            &&& action is DequeueRaw
            &&& next.phase == encoder.phase
            &&& next.raw.free == encoder.raw.free.push(buffer.index)
            &&& next.out == encoder.out
            &&& next.pending.header == encoder.pending.header
            &&& next.pending.frames == if buffer.flags & FLAG_ERROR != 0
                && encoder.pending.frames.contains(buffer.timestamp) {
                encoder.pending.frames.skip(
                    encoder.pending.frames.index_of_first(buffer.timestamp)->0 + 1,
                )
            } else {
                encoder.pending.frames
            }
        }),
{
    let frames = encoder.pending.frames;
    frames.index_of_first_ensures(buffer.timestamp);
    if let Some(at) = frames.index_of_first(buffer.timestamp) {
        assert(frames.skip(at + 1) =~= frames.subrange(at + 1, frames.len() as int));
    }
}

/// A frame that has been copied is handed to the driver in the buffer it was copied into
/// and under its own time: at once when no keyframe is due, and otherwise right after the
/// request for one, granted or not. A refused request is the last.
pub proof fn law_a_copied_frame_is_handed_over(encoder: EncoderView, now: int)
    ensures
        encoder.phase matches Phase::Writing { job, index } ==> {
            let (next, action) = encoder.step(Told::Done, now);
            if job.keyframe && encoder.keyframes {
                &&& action is ForceKeyframe
                &&& next.phase == (Phase::Forcing { job, index })
            } else {
                &&& action == (Action::QueueRaw { index, timestamp: job.timestamp })
                &&& next.phase == (Phase::Queueing { job })
            }
        },
        encoder.phase matches Phase::Forcing { job, index } ==> {
            &&& encoder.step(Told::Done, now).1 == (Action::QueueRaw {
                index,
                timestamp: job.timestamp,
            })
            &&& encoder.step(Told::Refused, now).1 == (Action::QueueRaw {
                index,
                timestamp: job.timestamp,
            })
            &&& encoder.step(Told::Done, now).0.phase == (Phase::Queueing { job })
            &&& encoder.step(Told::Refused, now).0.phase == (Phase::Queueing { job })
            &&& encoder.step(Told::Done, now).0.keyframes == encoder.keyframes
            &&& !encoder.step(Told::Refused, now).0.keyframes
        },
{
}

/// A frame the driver has taken is owed, behind those it took before. The first one starts
/// the queues: raw, then every coded buffer goes to the driver, in line, then coded.
pub proof fn law_a_frame_taken_is_owed(encoder: EncoderView, now: int)
    ensures
        encoder.phase matches Phase::Queueing { job } ==> {
            let (next, action) = encoder.step(Told::Done, now);
            &&& next.pending.frames == encoder.pending.frames.push(job.timestamp)
            &&& next.pending.header == encoder.pending.header
            &&& encoder.raw.streaming ==> action is DequeueRaw && next.phase == (
            Phase::Reclaiming { goal: Goal::Collect })
            &&& !encoder.raw.streaming ==> action is StreamRaw && next.phase is StartingRaw
        },
        encoder.phase is StartingRaw || encoder.phase is Filling ==> {
            let (next, action) = encoder.step(Told::Done, now);
            let free = encoder.coded.free;
            &&& encoder.phase is StartingRaw ==> next.raw.streaming
            &&& next.pending == encoder.pending
            &&& if free.len() > 0 {
                &&& action == (Action::QueueCoded { index: free[0] })
                &&& next.coded.free == free.subrange(1, free.len() as int)
                &&& next.phase is Filling
            } else {
                action is StreamCoded && next.phase is StartingCoded
            }
        },
        encoder.phase is StartingCoded ==> {
            let (next, action) = encoder.step(Told::Done, now);
            &&& next.coded.streaming
            &&& next.pending == encoder.pending
            &&& action is DequeueRaw
            &&& next.phase == (Phase::Reclaiming { goal: Goal::Collect })
        },
{
}

/// A round takes everything the driver has finished: every raw buffer, then every coded
/// one, each of which goes straight back, until there is nothing more or the sequence
/// ends. A parked round begins over.
pub proof fn law_a_round_takes_all_there_is(
    encoder: EncoderView,
    goal: Goal,
    buffer: Dequeued,
    memory: Seq<u8>,
    now: int,
)
    ensures
        encoder.phase == (Phase::Reclaiming { goal }) ==> {
            &&& encoder.step(Told::Raw(Dequeue::Empty), now) == (
                EncoderView { phase: Phase::Collecting { goal }, ..encoder },
                Action::DequeueCoded,
            )
            &&& encoder.step(Told::Raw(Dequeue::Ended), now) == (
                EncoderView { phase: Phase::Collecting { goal }, ..encoder },
                Action::DequeueCoded,
            )
        },
        encoder.phase == (Phase::Parked { goal }) ==> encoder.step(Told::Done, now) == (
            EncoderView { phase: Phase::Reclaiming { goal }, ..encoder },
            Action::DequeueRaw,
        ),
        encoder.phase == (Phase::Collecting { goal }) ==> encoder.step(
            Told::Coded(Dequeue::Buffer(buffer), memory),
            now,
        ) == (
            EncoderView {
                phase: Phase::Requeueing { goal, buffer },
                payload: coded_bytes(memory, buffer.bytesused@[0]),
                ..encoder
            },
            Action::QueueCoded { index: buffer.index },
        ),
        encoder.phase == (Phase::Requeueing { goal, buffer }) && buffer.flags & FLAG_LAST == 0 ==> {
            let (next, action) = encoder.step(Told::Done, now);
            ||| action matches Action::Fail(Error::TimestampRange { .. })
            ||| action is DequeueCoded && next.phase == (Phase::Collecting { goal })
        },
{
}

/// A coded buffer that is back with the driver is published under the time it carries,
/// behind the bytes that were waiting, when it holds something, is not flagged bad, and
/// answers a frame that is owed; that frame and the ones before it are then owed no more.
/// One that answers no frame leaves its bytes waiting. One flagged bad writes its frame
/// off. A time too far out to send fails the call.
#[verifier::spinoff_prover]
#[verifier::rlimit(40)]
pub proof fn law_what_becomes_of_a_coded_buffer(
    encoder: EncoderView,
    goal: Goal,
    buffer: Dequeued,
    now: int,
)
    requires
        encoder.phase == (Phase::Requeueing { goal, buffer }),
        buffer.timestamp.total() <= u64::MAX,
    ensures
        ({
            let (next, action) = encoder.step(Told::Done, now);
            let frames = encoder.pending.frames;
            let owed = frames.contains(buffer.timestamp);
            let left = if owed {
                frames.skip(frames.index_of_first(buffer.timestamp)->0 + 1)
            } else {
                frames
            };
            let micros = buffer.timestamp.total() as u64;
            let whole = encoder.pending.header + encoder.payload;
            let over = next.phase is Restarting && next.pending.frames.len() == 0;
            if buffer.flags & FLAG_ERROR != 0 {
                &&& next.out == encoder.out
                &&& next.pending.header == encoder.pending.header
                &&& next.pending.frames == left || over
            } else if encoder.payload.len() == 0 {
                &&& next.out == encoder.out
                &&& next.pending.header == encoder.pending.header
                &&& next.pending.frames == frames || over
            } else if !owed {
                &&& next.out == encoder.out
                &&& next.pending.header == whole
                &&& next.pending.frames == frames || over
            } else if micros > LAST_TIME {
                &&& next.out == encoder.out
                &&& action == Action::Fail(Error::TimestampRange { micros })
            } else {
                &&& next.out == encoder.out.push(Unit { payload: whole, timestamp: micros })
                &&& next.pending.header.len() == 0
                &&& next.pending.frames == left || over
            }
        }),
{
    let frames = encoder.pending.frames;
    frames.index_of_first_ensures(buffer.timestamp);
    if let Some(at) = frames.index_of_first(buffer.timestamp) {
        assert(frames.skip(at + 1) =~= frames.subrange(at + 1, frames.len() as int));
    }
    assert(buffer.timestamp.total() % 0x1_0000_0000_0000_0000 == buffer.timestamp.total());
}

/// A buffer flagged last ends a round just as a queue that is past it does.
#[verifier::spinoff_prover]
#[verifier::rlimit(40)]
pub proof fn law_a_last_buffer_ends_a_round(
    encoder: EncoderView,
    goal: Goal,
    buffer: Dequeued,
    now: int,
)
    requires
        encoder.phase == (Phase::Requeueing { goal, buffer }),
        buffer.flags & FLAG_LAST != 0,
        !(encoder.step(Told::Done, now).1 matches Action::Fail(Error::TimestampRange { .. })),
    ensures
        ({
            // The same buffer without the flag leaves the round where the end finds it.
            let open = EncoderView {
                phase: Phase::Requeueing {
                    goal,
                    buffer: Dequeued { flags: buffer.flags & FLAG_ERROR, ..buffer },
                },
                ..encoder
            }.step(Told::Done, now).0;
            encoder.step(Told::Done, now) == open.step(Told::Coded(Dequeue::Ended, Seq::empty()), now)
        }),
{
    let flags = buffer.flags;
    assert((flags & 0x40) & 0x10_0000 == 0) by (bit_vector);
    assert((flags & 0x40) & 0x40 == flags & 0x40) by (bit_vector);
}

/// When a round that has taken everything is the last. An encode ends there. A flush of a
/// driver that was stopped goes on until the end of the sequence, and then starts it
/// again with nothing owed; one of a driver that cannot be stopped goes on until nothing
/// is owed. Either is given another half a second whenever access units came, parks while
/// it has time left, and otherwise fails saying how many frames are owed.
#[verifier::spinoff_prover]
#[verifier::rlimit(40)]
pub proof fn law_when_a_round_is_the_last(encoder: EncoderView, goal: Goal, ended: bool, now: int)
    requires
        encoder.phase == (Phase::Collecting { goal }),
        0 <= now <= u64::MAX,
        encoder.out.len() <= usize::MAX,
        encoder.pending.frames.len() <= usize::MAX,
    ensures
        ({
            let told = if ended {
                Told::Coded(Dequeue::Ended, Seq::empty())
            } else {
                Told::Coded(Dequeue::Empty, Seq::empty())
            };
            let (next, action) = encoder.step(told, now);
            let (owed, count) = (encoder.pending.frames.len(), encoder.out.len());
            &&& next.out == encoder.out
            &&& next.pending.header == encoder.pending.header
            &&& !(action is Start) ==> next.pending.frames == encoder.pending.frames
            &&& match goal {
                Goal::Collect => action is Done && next.phase is Idle,
                Goal::ToLast { deadline, before } => if ended {
                    action is Start && next.phase is Restarting && next.pending.frames.len() == 0
                } else if count > before {
                    &&& action is Wait
                    &&& next.phase matches Phase::Parked { goal: Goal::ToLast { deadline: d, before: b } }
                    &&& d == now + HALF_A_SECOND && b == count
                } else if now >= deadline {
                    &&& action matches Action::Fail(Error::DrainStalled { frames })
                    &&& frames == owed
                } else {
                    &&& action is Wait
                    &&& next.phase matches Phase::Parked { goal: Goal::ToLast { deadline: d, before: b } }
                    &&& d == deadline && b == count
                },
                Goal::WaitOut { deadline, before } => if owed == 0 {
                    action is Done && next.phase is Idle
                } else if count > before {
                    &&& action is Wait
                    &&& next.phase matches Phase::Parked { goal: Goal::WaitOut { deadline: d, before: b } }
                    &&& d == now + HALF_A_SECOND && b == count
                } else if now >= deadline {
                    &&& action matches Action::Fail(Error::FramesHeld { frames })
                    &&& frames == owed
                } else {
                    &&& action is Wait
                    &&& next.phase matches Phase::Parked { goal: Goal::WaitOut { deadline: d, before: b } }
                    &&& d == deadline && b == count
                },
            }
        }),
{
}

/// What the two commands of a flush lead to: a stop that was granted, to a round up to the
/// end of the sequence, for half a second at least; one that was refused, which is the
/// last, to a round until nothing is owed; and a start, to the end of the call.
pub proof fn law_what_follows_a_command(encoder: EncoderView, now: int)
    requires
        0 <= now <= u64::MAX,
    ensures
        encoder.phase is Stopping ==> {
            &&& encoder.step(Told::Done, now) == (
                EncoderView {
                    phase: Phase::Reclaiming {
                        goal: Goal::ToLast {
                            deadline: (now + HALF_A_SECOND) as u128,
                            before: 0,
                        },
                    },
                    ..encoder
                },
                Action::DequeueRaw,
            )
            &&& encoder.step(Told::Refused, now) == (
                EncoderView {
                    phase: Phase::Reclaiming {
                        goal: Goal::WaitOut {
                            deadline: (now + HALF_A_SECOND) as u128,
                            before: 0,
                        },
                    },
                    drainable: false,
                    ..encoder
                },
                Action::DequeueRaw,
            )
        },
        encoder.phase is Restarting ==> encoder.step(Told::Done, now).1 is Done,
{
}

/// Every refusal but those of a keyframe request and of a stop fails the call, and leaves
/// what was published and what is owed as it was.
pub proof fn law_refusals_fail_the_call(encoder: EncoderView, now: int)
    requires
        !(encoder.phase is Forcing),
        !(encoder.phase is Stopping),
    ensures
        ({
            let (next, action) = encoder.step(Told::Refused, now);
            &&& action == Action::Fail(Error::Refused)
            &&& next.phase is Idle
            &&& next.out == encoder.out
            &&& next.pending == encoder.pending
            &&& next.drainable == encoder.drainable
            &&& next.keyframes == encoder.keyframes
        }),
{
}

/// Nothing that happens changes what the encoder was opened with, which buffers it has,
/// or a queue that is streaming back.
#[verifier::spinoff_prover]
#[verifier::rlimit(40)]
pub proof fn law_what_an_encoder_keeps(encoder: EncoderView, told: Told, now: int)
    requires
        encoder.expects(told),
    ensures
        ({
            let next = encoder.step(told, now).0;
            &&& next.size == encoder.size
            &&& next.planes == encoder.planes
            &&& next.raw.format == encoder.raw.format
            &&& next.raw.lengths == encoder.raw.lengths
            &&& next.raw.dir == encoder.raw.dir
            &&& next.coded.format == encoder.coded.format
            &&& next.coded.lengths == encoder.coded.lengths
            &&& next.coded.dir == encoder.coded.dir
            &&& encoder.raw.streaming ==> next.raw.streaming
            &&& encoder.coded.streaming ==> next.coded.streaming
            &&& next.raw.streaming && !encoder.raw.streaming ==> encoder.phase is StartingRaw
                && told is Done
            &&& next.coded.streaming && !encoder.coded.streaming ==> encoder.phase is StartingCoded
                && told is Done
            &&& !encoder.keyframes ==> !next.keyframes
            &&& encoder.keyframes && !next.keyframes ==> encoder.phase is Forcing && told is Refused
            &&& encoder.drainable && !next.drainable ==> encoder.phase is Stopping && told
                is Refused
        }),
{
}

/// An encoder takes every answer a driver can give to what it was asked: anything at all
/// may be refused, and a buffer that comes back has to be one of its own, whose bytes fit
/// in memory behind those that are waiting.
pub proof fn law_every_answer_is_taken(encoder: EncoderView, dequeue: Dequeue, memory: Seq<u8>)
    ensures
        !(encoder.phase is Idle) ==> encoder.expects(Told::Refused),
        (encoder.phase is Freeing || encoder.phase is Reclaiming) && (
        dequeue matches Dequeue::Buffer(buffer) ==> buffer.index < encoder.raw.lengths.len())
            ==> encoder.expects(Told::Raw(dequeue)),
        encoder.phase is Collecting && (dequeue matches Dequeue::Buffer(buffer) ==> buffer.index
            < encoder.coded.lengths.len() && encoder.pending.header.len() + memory.len()
            <= isize::MAX) ==> encoder.expects(Told::Coded(dequeue, memory)),
        encoder.phase is Converting || encoder.phase is Starved || encoder.phase is Writing
            || encoder.phase is Forcing || encoder.phase is Queueing || encoder.phase
            is StartingRaw || encoder.phase is Filling || encoder.phase is StartingCoded
            || encoder.phase is Requeueing || encoder.phase is Parked || encoder.phase is Stopping
            || encoder.phase is Restarting ==> encoder.expects(Told::Done),
{
}

/// What is published, owed, waiting or free changes only when it has cause to: output with
/// a coded buffer that is back with the driver; what is owed with a frame handed over or a
/// buffer that answers one, and at the end of a sequence; the bytes that wait with a coded
/// buffer alone; a raw buffer with one given back or filled; and a coded one with the first
/// start.
#[verifier::spinoff_prover]
#[verifier::rlimit(40)]
pub proof fn law_nothing_changes_without_cause(encoder: EncoderView, told: Told, now: int)
    requires
        encoder.expects(told),
    ensures
        ({
            let next = encoder.step(told, now).0;
            let published = encoder.phase is Requeueing && told is Done;
            let ended = encoder.phase is Collecting && told matches Told::Coded(Dequeue::Ended, _);
            let handed = encoder.phase is Queueing && told is Done;
            let returned = told is Raw && told->Raw_0 is Buffer;
            &&& next.out == encoder.out || published
            &&& next.pending.header == encoder.pending.header || published
            &&& next.pending.frames == encoder.pending.frames || published || ended || handed
                || returned
            &&& next.raw.free == encoder.raw.free || told is Raw
            &&& next.coded.free == encoder.coded.free || told is Done && (encoder.phase
                is StartingRaw || encoder.phase is Filling)
        }),
{
}

/// A call begins with the encoder as the one before it left it, but for what that one
/// produced.
pub proof fn law_what_a_call_begins_with(
    encoder: EncoderView,
    size: Size,
    timestamp: Duration,
    keyframe: bool,
    now: int,
)
    ensures
        ({
            let (encoding, flushing) = (
                encoder.encode(size, timestamp, keyframe).0,
                encoder.flush(now).0,
            );
            let before = EncoderView { out: Seq::empty(), ..encoder };
            &&& encoding == (EncoderView { phase: encoding.phase, ..before })
            &&& flushing == (EncoderView { phase: flushing.phase, ..before })
        }),
{
}

/// An encoder starts out owing nothing, with nothing in hand, and taking the driver to do
/// both of the things it may refuse.
pub proof fn law_what_an_encoder_starts_with(
    raw: QueueView,
    coded: QueueView,
    planes: Planes,
    size: Size,
)
    ensures
        ({
            let encoder = EncoderView::fresh(raw, coded, planes, size);
            &&& encoder.raw == raw
            &&& encoder.coded == coded
            &&& encoder.planes == planes
            &&& encoder.size == size
            &&& encoder.pending.frames.len() == 0
            &&& encoder.pending.header.len() == 0
            &&& encoder.drainable
            &&& encoder.keyframes
            &&& encoder.out.len() == 0
            &&& encoder.payload.len() == 0
            &&& encoder.phase is Idle
        }),
{
}

/// An encoder takes nothing but an answer to what it was asked, and nothing at all between
/// calls. A buffer that is not its own is no answer.
pub proof fn law_only_an_answer_is_taken(encoder: EncoderView, told: Told)
    requires
        encoder.expects(told),
    ensures
        !(encoder.phase is Idle),
        told is Done ==> !(encoder.phase is Freeing) && !(encoder.phase is Reclaiming)
            && !(encoder.phase is Collecting),
        told matches Told::Raw(dequeue) ==> {
            &&& encoder.phase is Freeing || encoder.phase is Reclaiming
            &&& dequeue matches Dequeue::Buffer(buffer) ==> buffer.index
                < encoder.raw.lengths.len()
        },
        told matches Told::Coded(dequeue, _) ==> {
            &&& encoder.phase is Collecting
            &&& dequeue matches Dequeue::Buffer(buffer) ==> buffer.index
                < encoder.coded.lengths.len()
        },
{
}

/// An encode that succeeds leaves nothing uncollected that was ready: it is over only once
/// the driver says that it has no more, or marks the end of a sequence.
pub proof fn law_an_encode_collects_all_that_is_ready(
    encoder: EncoderView,
    size: Size,
    timestamp: Duration,
    keyframe: bool,
    since: int,
    replies: Seq<Heard>,
)
    requires
        answers(encoder.encode(size, timestamp, keyframe), since, replies),
        after(encoder.encode(size, timestamp, keyframe), replies).1 is Done,
    ensures
        replies.len() > 0,
        marks_the_end(encoder.encode(size, timestamp, keyframe), replies) || (
        replies.last().told matches Told::Coded(Dequeue::Empty, _)),
{
    let begun = encoder.encode(size, timestamp, keyframe);
    if replies.len() > 0 {
        lemma_collecting(begun, since, replies.drop_last());
        lemma_collecting_step(after(begun, replies.drop_last()), replies);
    }
}

/// Whether an encode is on its way, and knows the buffer it hands back.
spec fn collecting(state: (EncoderView, Action), replies: Seq<Heard>) -> bool {
    match state.0.phase {
        Phase::Idle => state.1 is Done || state.1 is Fail,
        Phase::Stopping | Phase::Restarting => false,
        Phase::Reclaiming { goal } | Phase::Parked { goal } | Phase::Collecting { goal } => goal
            is Collect && !(state.1 is Done),
        Phase::Requeueing { goal, buffer } => {
            &&& goal is Collect
            &&& state.1 is QueueCoded
            &&& replies.len() > 0
            &&& replies.last().told matches Told::Coded(Dequeue::Buffer(taken), _)
            &&& taken == buffer
        },
        _ => !(state.1 is Done),
    }
}

#[verifier::spinoff_prover]
#[verifier::rlimit(40)]
proof fn lemma_collecting_step(state: (EncoderView, Action), replies: Seq<Heard>)
    requires
        replies.len() > 0,
        collecting(state, replies.drop_last()),
        state.0.expects(replies.last().told),
    ensures
        ({
            let told = replies.last().told;
            let next = state.0.step(told, replies.last().now);
            &&& collecting(next, replies)
            &&& next.1 is Done ==> {
                ||| told matches Told::Coded(Dequeue::Empty, _)
                ||| told matches Told::Coded(Dequeue::Ended, _)
                ||| {
                    &&& state.1 is QueueCoded
                    &&& told is Done
                    &&& replies.len() >= 2
                    &&& replies.drop_last().last().told matches Told::Coded(
                        Dequeue::Buffer(buffer),
                        _,
                    )
                    &&& buffer.flags & FLAG_LAST != 0
                }
            }
        }),
{
}

proof fn lemma_collecting(begun: (EncoderView, Action), since: int, replies: Seq<Heard>)
    requires
        collecting(begun, Seq::empty()),
        answers(begun, since, replies),
    ensures
        collecting(after(begun, replies), replies),
    decreases replies.len(),
{
    if replies.len() > 0 {
        lemma_collecting(begun, since, replies.drop_last());
        lemma_collecting_step(after(begun, replies.drop_last()), replies);
    } else {
        assert(replies =~= Seq::empty());
    }
}

} // verus!
